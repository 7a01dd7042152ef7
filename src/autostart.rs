//! The autostart change detector: it hashes a widget's files, compares the
//! hashes with the ledger of the previous pass, and decides whether the
//! widget's autostart commands must run again. Any mismatch runs all of them.
use vstd::prelude::*;
use vstd::string::*;
use vstd::utf8::encode_utf8;
use crate::ledger::{
    lacks, ledger_text, lemma_parse_ledger_text, lookup, parse_records, plain_record,
    record_views, Ledger, Record,
};
use crate::text::{contains_str, has_infix, views};

verus! {

/// The name of the SHA-1 digest of `data`.
pub uninterp spec fn sha1_of(data: Seq<u8>) -> Seq<u8>;

/// Relies on `sha1::Sha1` through `Digest::digest`: the 20-byte SHA-1 digest
/// of the bytes, which depends on the bytes alone.
#[verifier::external_body]
fn sha1_digest(data: &[u8]) -> (r: Vec<u8>)
    ensures
        r@ == sha1_of(data@),
        r@.len() == 20,
{
    <sha1::Sha1 as sha1::Digest>::digest(data).to_vec()
}

/// The lower-case hexadecimal digit for `d < 16`.
pub open spec fn hex_digit(d: nat) -> char {
    if d < 10 {
        ('0' as nat + d) as char
    } else {
        ('a' as nat + (d - 10)) as char
    }
}

/// Two lower-case hexadecimal digits per byte.
pub open spec fn hex_of(b: Seq<u8>) -> Seq<char>
    decreases b.len(),
{
    if b.len() == 0 {
        Seq::empty()
    } else {
        hex_of(b.drop_last()) + seq![hex_digit(b.last() as nat / 16), hex_digit(b.last() as nat % 16)]
    }
}

/// The hash of a file: the digest of its name, a newline and its contents.
pub open spec fn file_hash(name: Seq<char>, contents: Seq<char>) -> Seq<char> {
    hex_of(sha1_of(encode_utf8(name + seq!['\n'] + contents)))
}

proof fn lemma_hex_plain(b: Seq<u8>)
    ensures
        lacks(hex_of(b), ':'),
        lacks(hex_of(b), '\n'),
    decreases b.len(),
{
    if b.len() > 0 {
        lemma_hex_plain(b.drop_last());
        let h = hex_of(b);
        let p = hex_of(b.drop_last());
        assert forall|i: int| 0 <= i < h.len() implies h[i] != ':' && h[i] != '\n' by {
            if i >= p.len() {
                let d = if i == p.len() { b.last() as nat / 16 } else { b.last() as nat % 16 };
                assert(h[i] == hex_digit(d));
            } else {
                assert(h[i] == p[i]);
            }
        }
    }
}

fn hex_digit_str(d: u8) -> (r: &'static str)
    requires
        d < 16,
    ensures
        r@ == seq![hex_digit(d as nat)],
{
    let all = "0123456789abcdef";
    proof {
        reveal_strlit("0123456789abcdef");
    }
    let r = all.substring_char(d as usize, d as usize + 1);
    assert(r@ =~= seq![hex_digit(d as nat)]);
    r
}

/// Two lower-case hexadecimal digits per byte.
pub fn hex_string(b: &Vec<u8>) -> (r: String)
    ensures
        r@ == hex_of(b@),
{
    let mut r = String::new();
    let mut i: usize = 0;
    assert(b@.subrange(0, 0) =~= Seq::<u8>::empty());
    while i < b.len()
        invariant
            0 <= i <= b@.len(),
            r@ == hex_of(b@.subrange(0, i as int)),
        decreases b@.len() - i,
    {
        let x = b[i];
        r.append(hex_digit_str(x / 16));
        r.append(hex_digit_str(x % 16));
        assert(b@.subrange(0, i + 1).drop_last() =~= b@.subrange(0, i as int));
        assert(r@ =~= hex_of(b@.subrange(0, i + 1)));
        i = i + 1;
    }
    assert(b@.subrange(0, i as int) =~= b@);
    r
}

/// The hash of a file from its name and contents.
pub fn file_hash_of(name: &str, contents: &str) -> (r: String)
    ensures
        r@ == file_hash(name@, contents@),
{
    let mut input = name.to_owned();
    input.append("\n");
    input.append(contents);
    proof {
        reveal_strlit("\n");
        assert(input@ =~= name@ + seq!['\n'] + contents@);
    }
    let digest = sha1_digest(input.as_str().as_bytes());
    hex_string(&digest)
}

/// A command that a widget runs when its files have changed.
#[derive(Clone, Debug, Default)]
pub struct AutoStartCommand {
    pub cmd: String,
    pub args: Vec<String>,
}

/// A command as its program and its arguments.
pub type CommandView = (Seq<char>, Seq<Seq<char>>);

/// The characters of each command.
pub open spec fn command_views(v: Seq<AutoStartCommand>) -> Seq<CommandView> {
    v.map_values(|c: AutoStartCommand| (c.cmd@, views(c.args@)))
}

/// Commands whose program is a script for an interpreter that is not
/// installed with the host are skipped.
pub open spec fn skipped(c: CommandView) -> bool {
    has_infix(c.0, ".lua"@)
}

/// The argument vectors of the commands that run, in their order.
pub open spec fn planned(cmds: Seq<CommandView>) -> Seq<Seq<Seq<char>>>
    decreases cmds.len(),
{
    if cmds.len() == 0 {
        Seq::empty()
    } else {
        planned(cmds.drop_last()) + (if skipped(cmds.last()) {
            Seq::empty()
        } else {
            seq![seq![cmds.last().0] + cmds.last().1]
        })
    }
}

/// The argument vectors of the commands that run, in their order: the
/// program, then its arguments.
pub fn plan_autostart(cmds: &Vec<AutoStartCommand>) -> (r: Vec<Vec<String>>)
    ensures
        r@.map_values(|a: Vec<String>| views(a@)) == planned(command_views(cmds@)),
{
    let mut r: Vec<Vec<String>> = Vec::new();
    let mut i: usize = 0;
    assert(command_views(cmds@).subrange(0, 0) =~= Seq::<CommandView>::empty());
    while i < cmds.len()
        invariant
            0 <= i <= cmds@.len(),
            r@.map_values(|a: Vec<String>| views(a@)) == planned(
                command_views(cmds@).subrange(0, i as int),
            ),
        decreases cmds@.len() - i,
    {
        let c = &cmds[i];
        let ghost cv = command_views(cmds@);
        let ghost before = r@;
        assert(cv.subrange(0, i + 1).drop_last() =~= cv.subrange(0, i as int));
        assert(cv.subrange(0, i + 1).last() == (c.cmd@, views(c.args@)));
        if !contains_str(c.cmd.as_str(), ".lua") {
            let mut argv: Vec<String> = Vec::new();
            argv.push(c.cmd.clone());
            let mut j: usize = 0;
            while j < c.args.len()
                invariant
                    0 <= j <= c.args@.len(),
                    views(argv@) == seq![c.cmd@] + views(c.args@).subrange(0, j as int),
                decreases c.args@.len() - j,
            {
                let a = c.args[j].clone();
                let ghost before_argv = views(argv@);
                argv.push(a);
                assert(views(argv@) =~= before_argv.push(a@));
                assert(views(c.args@).subrange(0, j + 1) =~= views(c.args@).subrange(0, j as int).push(a@));
                assert(views(argv@) =~= seq![c.cmd@] + views(c.args@).subrange(0, j + 1));
                j = j + 1;
            }
            assert(views(c.args@).subrange(0, j as int) =~= views(c.args@));
            r.push(argv);
            assert(r@.map_values(|a: Vec<String>| views(a@)) =~= before.map_values(
                |a: Vec<String>| views(a@),
            ).push(views(argv@)));
        }
        assert(r@.map_values(|a: Vec<String>| views(a@)) =~= planned(cv.subrange(0, i + 1)));
        i = i + 1;
    }
    assert(command_views(cmds@).subrange(0, i as int) =~= command_views(cmds@));
    r
}

/// The name under which the widget's main configuration is recorded.
pub open spec fn config_key() -> Seq<char> {
    "config.toml"@
}

/// The records of a pass: each autostart file with its hash, then the main
/// configuration.
pub open spec fn fresh_records(files: Seq<Record>, config: Seq<char>) -> Seq<Record> {
    files.map_values(|f: Record| (f.0, file_hash(f.0, f.1))).push(
        (config_key(), file_hash(config_key(), config)),
    )
}

/// Some file of the fresh records has no record in the prior ones, or
/// another hash there.
pub open spec fn ledger_changed(prior: Seq<Record>, fresh: Seq<Record>) -> bool {
    exists|i: int|
        0 <= i < fresh.len() && lookup(prior, #[trigger] fresh[i].0) != lookup(fresh, fresh[i].0)
}

/// The commands a pass runs.
pub open spec fn pass_commands(
    prior_text: Seq<char>,
    files: Seq<Record>,
    config: Seq<char>,
    cmds: Seq<CommandView>,
) -> Seq<Seq<Seq<char>>> {
    if ledger_changed(parse_records(prior_text), fresh_records(files, config)) {
        planned(cmds)
    } else {
        Seq::empty()
    }
}

/// What a detection pass decided: whether anything changed, the commands to
/// run in order, and the ledger file to write in place of the old one.
#[derive(Clone, Debug)]
pub struct DetectionPass {
    pub changed: bool,
    pub commands: Vec<Vec<String>>,
    pub ledger: String,
}

/// Whether some record of `fresh` is missing from `prior` or differs there.
pub fn differs(prior: &Ledger, fresh: &Ledger) -> (r: bool)
    ensures
        r == ledger_changed(prior.records(), fresh.records()),
{
    let n = fresh.len();
    let mut i: usize = 0;
    while i < n
        invariant
            n == fresh.records().len(),
            0 <= i <= n,
            forall|j: int|
                0 <= j < i ==> lookup(prior.records(), #[trigger] fresh.records()[j].0) == lookup(
                    fresh.records(),
                    fresh.records()[j].0,
                ),
        decreases n - i,
    {
        let k = fresh.name_at(i);
        let p = prior.get(k.as_str());
        let f = fresh.get(k.as_str());
        let same = match (p, f) {
            (Some(a), Some(b)) => a == b,
            (None, None) => true,
            _ => false,
        };
        if !same {
            return true;
        }
        i = i + 1;
    }
    false
}

/// Runs the decisions of one detection pass for one widget: the prior
/// ledger file, each autostart file with its contents, the main
/// configuration's contents and the configured commands. The new ledger is
/// always written; the commands run only when some hash changed, and then
/// all of them but the skipped ones.
pub fn detect(
    prior_text: &str,
    files: &Vec<(String, String)>,
    config: &str,
    cmds: &Vec<AutoStartCommand>,
) -> (r: DetectionPass)
    ensures
        r.changed == ledger_changed(
            parse_records(prior_text@),
            fresh_records(record_views(files@), config@),
        ),
        r.ledger@ == ledger_text(fresh_records(record_views(files@), config@)),
        r.commands@.map_values(|a: Vec<String>| views(a@)) == pass_commands(
            prior_text@,
            record_views(files@),
            config@,
            command_views(cmds@),
        ),
{
    let prior = Ledger::load(prior_text);
    let mut fresh = Ledger::new();
    let ghost fv = record_views(files@);
    let mut i: usize = 0;
    while i < files.len()
        invariant
            fv == record_views(files@),
            0 <= i <= files@.len(),
            fresh.records() == fv.subrange(0, i as int).map_values(
                |f: Record| (f.0, file_hash(f.0, f.1)),
            ),
        decreases files@.len() - i,
    {
        let name = &files[i].0;
        let h = file_hash_of(name.as_str(), files[i].1.as_str());
        fresh.insert(name.clone(), h);
        assert(fresh.records() =~= fv.subrange(0, i + 1).map_values(
            |f: Record| (f.0, file_hash(f.0, f.1)),
        ));
        i = i + 1;
    }
    let key = String::from_str("config.toml");
    let h = file_hash_of(key.as_str(), config);
    fresh.insert(key, h);
    assert(fv.subrange(0, i as int) =~= fv);
    assert(fresh.records() =~= fresh_records(fv, config@));
    let changed = differs(&prior, &fresh);
    let commands = if changed {
        plan_autostart(cmds)
    } else {
        let none: Vec<Vec<String>> = Vec::new();
        assert(none@.map_values(|a: Vec<String>| views(a@)) =~= Seq::<Seq<Seq<char>>>::empty());
        none
    };
    DetectionPass { changed, commands, ledger: fresh.save() }
}

/// A second pass over unchanged files runs no command, provided no file name
/// holds `:` or a line break (the characters that frame a ledger line).
pub proof fn lemma_second_pass_runs_nothing(
    prior_text: Seq<char>,
    files: Seq<Record>,
    config: Seq<char>,
    cmds: Seq<CommandView>,
)
    requires
        forall|i: int|
            0 <= i < files.len() ==> lacks(#[trigger] files[i].0, ':') && lacks(files[i].0, '\n'),
    ensures
        pass_commands(ledger_text(fresh_records(files, config)), files, config, cmds) == Seq::<
            Seq<Seq<char>>,
        >::empty(),
{
    let fresh = fresh_records(files, config);
    assert forall|i: int| 0 <= i < fresh.len() implies plain_record(#[trigger] fresh[i]) by {
        reveal_strlit("config.toml");
        if i < files.len() {
            lemma_hex_plain(sha1_of(encode_utf8(files[i].0 + seq!['\n'] + files[i].1)));
        } else {
            lemma_hex_plain(sha1_of(encode_utf8(config_key() + seq!['\n'] + config)));
        }
    }
    lemma_parse_ledger_text(fresh);
}

/// Once any file's hash differs from the ledger, a pass runs every
/// configured command but the skipped ones, in order: the same commands a
/// first pass runs.
pub proof fn lemma_any_change_runs_all(
    prior_text: Seq<char>,
    files: Seq<Record>,
    config: Seq<char>,
    cmds: Seq<CommandView>,
    i: int,
)
    requires
        0 <= i < files.len(),
        lookup(parse_records(prior_text), files[i].0) != Some(file_hash(files[i].0, files[i].1)),
        lookup(fresh_records(files, config), files[i].0) == Some(
            file_hash(files[i].0, files[i].1),
        ),
    ensures
        pass_commands(prior_text, files, config, cmds) == planned(cmds),
        pass_commands(Seq::empty(), files, config, cmds) == planned(cmds),
{
    let fresh = fresh_records(files, config);
    assert(fresh[i].0 == files[i].0);
    let last = fresh.len() - 1;
    assert(fresh[last].0 == config_key());
    assert(lookup(fresh, fresh[last].0) is Some);
    assert(parse_records(Seq::<char>::empty()) == Seq::<Record>::empty());
    assert(lookup(Seq::<Record>::empty(), fresh[last].0) is None);
}

} // verus!
