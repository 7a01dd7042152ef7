//! Keyboard shortcuts: an edge-triggered watcher that fires a shortcut when
//! its chord becomes fully held, never again while it stays held, and the
//! lifecycle request a fired shortcut makes.
use vstd::prelude::*;
use vstd::string::*;
use crate::config::{KeyboardShortcuts, SbbwConfig};
use crate::rpc::{opt_view, RpcAction, RpcDataRequest};
use crate::text::{decimal, decimal_string, str_eq, views};

verus! {

/// A chord is held when exactly its keys, in its order, are pressed.
pub open spec fn chord_held(chord: Seq<Seq<char>>, pressed: Seq<Seq<char>>) -> bool {
    pressed.len() > 0 && chord == pressed
}

/// The shortcuts, among the first `n`, whose chord has just become held.
pub open spec fn fired(
    chords: Seq<Seq<Seq<char>>>,
    held: Seq<bool>,
    pressed: Seq<Seq<char>>,
    n: int,
) -> Seq<usize>
    decreases n,
{
    if n <= 0 {
        Seq::empty()
    } else {
        fired(chords, held, pressed, n - 1) + (if chord_held(chords[n - 1], pressed) && !held[n
            - 1] {
            seq![(n - 1) as usize]
        } else {
            Seq::empty()
        })
    }
}

/// Whether two key lists are the same.
pub fn same_keys(a: &Vec<String>, b: &Vec<String>) -> (r: bool)
    ensures
        r == (views(a@) == views(b@)),
{
    if a.len() != b.len() {
        assert(views(a@).len() != views(b@).len());
        return false;
    }
    let mut i: usize = 0;
    while i < a.len()
        invariant
            a@.len() == b@.len(),
            0 <= i <= a@.len(),
            forall|j: int| 0 <= j < i ==> #[trigger] a@[j]@ == b@[j]@,
        decreases a@.len() - i,
    {
        if !str_eq(a[i].as_str(), b[i].as_str()) {
            assert(views(a@)[i as int] != views(b@)[i as int]);
            return false;
        }
        i = i + 1;
    }
    assert(views(a@) =~= views(b@));
    true
}

/// The chords of the shortcuts, with whether each was held at the last poll.
pub struct ChordWatch {
    chords: Vec<Vec<String>>,
    held: Vec<bool>,
}

impl ChordWatch {
    /// The chords, in the order of the shortcuts.
    pub closed spec fn chords(&self) -> Seq<Seq<Seq<char>>> {
        self.chords@.map_values(|c: Vec<String>| views(c@))
    }

    /// Whether each chord was held at the last poll.
    pub closed spec fn held(&self) -> Seq<bool> {
        self.held@
    }

    /// One flag per chord.
    pub closed spec fn wf(&self) -> bool {
        self.held@.len() == self.chords@.len()
    }

    /// A watcher for the shortcuts of a configuration, none of them held.
    pub fn new(cfg: &SbbwConfig) -> (r: Self)
        ensures
            r.wf(),
            r.chords() == cfg.shortcuts@.map_values(|s: KeyboardShortcuts| views(s.keys@)),
            forall|i: int| 0 <= i < r.held().len() ==> !r.held()[i],
    {
        let mut chords: Vec<Vec<String>> = Vec::new();
        let mut held: Vec<bool> = Vec::new();
        let mut i: usize = 0;
        while i < cfg.shortcuts.len()
            invariant
                0 <= i <= cfg.shortcuts@.len(),
                chords@.len() == i,
                held@.len() == i,
                forall|j: int| 0 <= j < i ==> !held@[j],
                forall|j: int| 0 <= j < i ==> views(#[trigger] chords@[j]@) == views(cfg.shortcuts@[j].keys@),
            decreases cfg.shortcuts@.len() - i,
        {
            let keys = &cfg.shortcuts[i].keys;
            let mut c: Vec<String> = Vec::new();
            let mut j: usize = 0;
            while j < keys.len()
                invariant
                    0 <= j <= keys@.len(),
                    views(c@) == views(keys@).subrange(0, j as int),
                decreases keys@.len() - j,
            {
                let k = keys[j].clone();
                let ghost before = views(c@);
                c.push(k);
                assert(views(c@) =~= before.push(k@));
                assert(views(keys@).subrange(0, j + 1) =~= views(keys@).subrange(0, j as int).push(k@));
                j = j + 1;
            }
            assert(views(keys@).subrange(0, j as int) =~= views(keys@));
            chords.push(c);
            held.push(false);
            i = i + 1;
        }
        let r = ChordWatch { chords, held };
        assert(r.chords() =~= cfg.shortcuts@.map_values(|s: KeyboardShortcuts| views(s.keys@)));
        r
    }

    /// Takes the keys pressed now and returns, in order, the shortcuts whose
    /// chord has just become held; each chord's flag becomes whether it is
    /// held now.
    pub fn poll(&mut self, pressed: &Vec<String>) -> (r: Vec<usize>)
        requires
            old(self).wf(),
        ensures
            final(self).wf(),
            final(self).chords() == old(self).chords(),
            r@ == fired(old(self).chords(), old(self).held(), views(pressed@), old(self).chords().len() as int),
            forall|i: int|
                0 <= i < final(self).held().len() ==> final(self).held()[i] == chord_held(
                    old(self).chords()[i],
                    views(pressed@),
                ),
    {
        let ghost chords = self.chords();
        let ghost held0 = self.held();
        let mut r: Vec<usize> = Vec::new();
        let mut i: usize = 0;
        let n = self.chords.len();
        while i < n
            invariant
                n == self.chords@.len(),
                self.wf(),
                chords == self.chords(),
                held0.len() == n,
                0 <= i <= n,
                r@ == fired(chords, held0, views(pressed@), i as int),
                forall|j: int| i <= j < n ==> self.held@[j] == held0[j],
                forall|j: int| 0 <= j < i ==> self.held@[j] == chord_held(chords[j], views(pressed@)),
            decreases n - i,
        {
            let now = pressed.len() > 0 && same_keys(&self.chords[i], pressed);
            assert(chords[i as int] == views(self.chords@[i as int]@));
            if now && !self.held[i] {
                r.push(i);
            }
            self.held.set(i, now);
            assert(r@ =~= fired(chords, held0, views(pressed@), i + 1));
            i = i + 1;
        }
        r
    }
}

/// The page of a widget on the local host at `port`.
pub open spec fn local_url(port: u16, name: Seq<char>) -> Seq<char> {
    "http://localhost:"@ + decimal(port as nat) + "/"@ + name + "/ui"@
}

/// The port a host listens on when its configuration cannot be read.
pub const DEFAULT_PORT: u16 = 8111;

/// The request a fired shortcut makes: its own URL, or else the widget's
/// page on the local host at the configured port (or the default port when
/// the configuration could not be read).
pub fn shortcut_request(s: &KeyboardShortcuts, port: Option<u16>) -> (r: RpcDataRequest)
    ensures
        r.widget_name@ == s.widget@,
        r.action == s.action,
        opt_view(r.widget_params) == Some(s.widget_args@),
        r.url@ == match s.url {
            Some(u) => u@,
            None => local_url(
                match port {
                    Some(p) => p,
                    None => DEFAULT_PORT,
                },
                s.widget@,
            ),
        },
{
    let url = match &s.url {
        Some(u) => u.clone(),
        None => {
            let p = match port {
                Some(p) => p,
                None => DEFAULT_PORT,
            };
            let mut u = String::from_str("http://localhost:");
            let digits = decimal_string(p as u64);
            u.append(digits.as_str());
            u.append("/");
            u.append(s.widget.as_str());
            u.append("/ui");
            u
        },
    };
    RpcDataRequest {
        action: s.action,
        widget_params: Some(s.widget_args.clone()),
        widget_name: s.widget.clone(),
        url,
    }
}

/// Adds a shortcut to the configuration, after the others.
pub fn add_shortcut(conf: &mut SbbwConfig, shortcut: KeyboardShortcuts)
    ensures
        final(conf).port == old(conf).port,
        final(conf).shortcuts@ == old(conf).shortcuts@.push(shortcut),
{
    conf.shortcuts.push(shortcut);
}

} // verus!
