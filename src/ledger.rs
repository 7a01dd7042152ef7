//! The autostart ledger: for one widget, the content hash of each of its
//! files as the last detection pass computed it, kept on disk as lines of
//! `filename:hexhash`.
use vstd::prelude::*;
use vstd::string::*;
use vstd::utf8::encode_utf8;
use crate::text::{field_end, field_len, first_field, lemma_field_len, lemma_field_len_append, str_eq};

verus! {

/// A ledger record: a file name and its hash.
pub type Record = (Seq<char>, Seq<char>);

/// The characters of each record.
pub open spec fn record_views(es: Seq<(String, String)>) -> Seq<Record> {
    es.map_values(|e: (String, String)| (e.0@, e.1@))
}

/// The hash a sequence of records gives a file name: the last record for it
/// counts.
pub open spec fn lookup(es: Seq<Record>, k: Seq<char>) -> Option<Seq<char>>
    decreases es.len(),
{
    if es.len() == 0 {
        None
    } else if es.last().0 == k {
        Some(es.last().1)
    } else {
        lookup(es.drop_last(), k)
    }
}

/// The map from file name to hash that a sequence of records stands for.
pub open spec fn records_map(es: Seq<Record>) -> Map<Seq<char>, Seq<char>> {
    Map::new(|k: Seq<char>| lookup(es, k) is Some, |k: Seq<char>| lookup(es, k)->0)
}

/// One line of the ledger file.
pub open spec fn record_line(e: Record) -> Seq<char> {
    e.0 + seq![':'] + e.1 + seq!['\n']
}

/// The ledger file for a sequence of records.
pub open spec fn ledger_text(es: Seq<Record>) -> Seq<char>
    decreases es.len(),
{
    if es.len() == 0 {
        Seq::empty()
    } else {
        record_line(es[0]) + ledger_text(es.drop_first())
    }
}

/// The record a line holds: the text before its first `:` and the text
/// between its first and second `:`. A line without `:` holds none.
pub open spec fn line_record(line: Seq<char>) -> Seq<Record> {
    let k = field_len(line, ':');
    if k < line.len() {
        seq![(line.subrange(0, k as int), first_field(line.subrange(k as int + 1, line.len() as int), ':'))]
    } else {
        Seq::empty()
    }
}

/// The records of a ledger file, line by line.
pub open spec fn parse_records(s: Seq<char>) -> Seq<Record>
    decreases s.len(),
{
    if s.len() == 0 {
        Seq::empty()
    } else {
        let n = field_len(s, '\n');
        line_record(s.subrange(0, n as int)) + (if n < s.len() {
            parse_records(s.subrange(n as int + 1, s.len() as int))
        } else {
            Seq::empty()
        })
    }
}

/// `c` does not occur in `s`.
pub open spec fn lacks(s: Seq<char>, c: char) -> bool {
    forall|i: int| 0 <= i < s.len() ==> s[i] != c
}

/// A record that a line of the file keeps as it is.
pub open spec fn plain_record(e: Record) -> bool {
    lacks(e.0, ':') && lacks(e.0, '\n') && lacks(e.1, ':') && lacks(e.1, '\n')
}

proof fn lemma_field_len_whole(s: Seq<char>, c: char)
    requires
        lacks(s, c),
    ensures
        field_len(s, c) == s.len(),
{
    lemma_field_len(s, c, s.len() as int);
}

/// Reading back the file of plain records gives the same records.
pub proof fn lemma_parse_ledger_text(es: Seq<Record>)
    requires
        forall|i: int| 0 <= i < es.len() ==> plain_record(#[trigger] es[i]),
    ensures
        parse_records(ledger_text(es)) == es,
    decreases es.len(),
{
    if es.len() > 0 {
        let e = es[0];
        let rest = es.drop_first();
        assert forall|i: int| 0 <= i < rest.len() implies plain_record(#[trigger] rest[i]) by {
            assert(rest[i] == es[i + 1]);
        }
        lemma_parse_ledger_text(rest);
        let s = ledger_text(es);
        let line = e.0 + seq![':'] + e.1;
        assert(plain_record(es[0]));
        assert(s =~= line + (seq!['\n'] + ledger_text(rest)));
        assert(lacks(line, '\n'));
        lemma_field_len_append(line, seq!['\n'] + ledger_text(rest), '\n');
        lemma_field_len(seq!['\n'] + ledger_text(rest), '\n', 0);
        let n = line.len();
        assert(s.subrange(0, n as int) =~= line);
        assert(s.subrange(n as int + 1, s.len() as int) =~= ledger_text(rest));
        lemma_field_len_append(e.0, seq![':'] + e.1, ':');
        lemma_field_len(seq![':'] + e.1, ':', 0);
        assert(line =~= e.0 + (seq![':'] + e.1));
        let k = e.0.len();
        assert(line.subrange(0, k as int) =~= e.0);
        assert(line.subrange(k as int + 1, line.len() as int) =~= e.1);
        lemma_field_len_whole(e.1, ':');
        assert(first_field(e.1, ':') =~= e.1);
        assert(line_record(line) =~= seq![e]);
        assert(parse_records(s) =~= seq![e] + rest);
        assert(es =~= seq![e] + rest);
    }
}

proof fn lemma_ledger_text_push(es: Seq<Record>, e: Record)
    ensures
        ledger_text(es.push(e)) == ledger_text(es) + record_line(e),
    decreases es.len(),
{
    if es.len() == 0 {
        assert(es.push(e).drop_first() =~= Seq::<Record>::empty());
        assert(es.push(e)[0] == e);
        assert(ledger_text(Seq::<Record>::empty()) == Seq::<char>::empty());
        assert(ledger_text(es) == Seq::<char>::empty());
        assert(ledger_text(es.push(e)) =~= record_line(e));
    } else {
        assert(es.push(e).drop_first() =~= es.drop_first().push(e));
        lemma_ledger_text_push(es.drop_first(), e);
        assert(ledger_text(es.push(e)) =~= ledger_text(es) + record_line(e));
    }
}

/// The hash of each file of a widget, from the last detection pass.
#[derive(Clone, Debug)]
pub struct Ledger {
    entries: Vec<(String, String)>,
}

impl Ledger {
    /// The records, in the order they were added.
    pub closed spec fn records(&self) -> Seq<Record> {
        record_views(self.entries@)
    }

    /// The map from file name to hash.
    pub open spec fn view(&self) -> Map<Seq<char>, Seq<char>> {
        records_map(self.records())
    }

    /// A ledger with no record: what a first pass starts from.
    pub fn new() -> (r: Ledger)
        ensures
            r.records() == Seq::<Record>::empty(),
    {
        let r = Ledger { entries: Vec::new() };
        assert(r.records() =~= Seq::<Record>::empty());
        r
    }

    /// Records the hash of a file; it replaces any earlier one for that name.
    pub fn insert(&mut self, name: String, hash: String)
        ensures
            final(self).records() == old(self).records().push((name@, hash@)),
    {
        self.entries.push((name, hash));
        assert(self.records() =~= old(self).records().push((name@, hash@)));
    }

    /// The hash recorded for a file name.
    pub fn get(&self, name: &str) -> (r: Option<String>)
        ensures
            match r {
                Some(h) => lookup(self.records(), name@) == Some(h@),
                None => lookup(self.records(), name@) is None,
            },
    {
        let ghost es = self.records();
        let mut j: usize = self.entries.len();
        assert(es.subrange(0, j as int) =~= es);
        while j > 0
            invariant
                es == self.records(),
                j <= self.entries@.len(),
                lookup(es, name@) == lookup(es.subrange(0, j as int), name@),
            decreases j,
        {
            let ghost pre = es.subrange(0, j as int);
            assert(pre.last() == es[j - 1]);
            assert(pre.drop_last() =~= es.subrange(0, j - 1));
            if str_eq(self.entries[j - 1].0.as_str(), name) {
                return Some(self.entries[j - 1].1.clone());
            }
            j = j - 1;
        }
        None
    }

    /// The number of records.
    pub fn len(&self) -> (r: usize)
        ensures
            r == self.records().len(),
    {
        self.entries.len()
    }

    /// The file name of the `i`-th record.
    pub fn name_at(&self, i: usize) -> (r: String)
        requires
            i < self.records().len(),
        ensures
            r@ == self.records()[i as int].0,
    {
        self.entries[i].0.clone()
    }

    /// Reads a ledger file. Empty lines and lines without `:` hold no record.
    pub fn load(text: &str) -> (r: Ledger)
        ensures
            r.records() == parse_records(text@),
    {
        let n = text.unicode_len();
        let mut r = Ledger::new();
        let mut i: usize = 0;
        assert(text@.subrange(0, n as int) =~= text@);
        while i < n
            invariant
                n == text@.len(),
                0 <= i <= n,
                parse_records(text@) == r.records() + parse_records(text@.subrange(i as int, n as int)),
            decreases n - i,
        {
            let ghost s = text@.subrange(i as int, n as int);
            let e = field_end(text, '\n', i);
            let ghost line = text@.subrange(i as int, e as int);
            assert(s.subrange(0, e - i) =~= line);
            let k = field_end(text, ':', i);
            if k < e {
                let key = text.substring_char(i, k);
                let v_end = field_end(text, ':', k + 1);
                let stop = if v_end < e { v_end } else { e };
                let value = text.substring_char(k + 1, stop);
                proof {
                    lemma_field_len(line, ':', k - i);
                    let vline = line.subrange(k - i + 1, line.len() as int);
                    assert forall|q: int| 0 <= q < stop - k - 1 implies vline[q] != ':' by {
                        assert(vline[q] == text@[k + 1 + q]);
                    }
                    if stop < e {
                        assert(vline[stop - k - 1] == text@[stop as int]);
                    }
                    lemma_field_len(vline, ':', stop - k - 1);
                    assert(vline.subrange(0, stop - k - 1) =~= value@);
                    assert(key@ =~= line.subrange(0, k - i));
                    assert(line_record(line) =~= seq![(key@, value@)]);
                }
                r.insert(key.to_owned(), value.to_owned());
            } else {
                proof {
                    assert forall|q: int| 0 <= q < line.len() implies line[q] != ':' by {
                        assert(line[q] == text@[i + q]);
                    }
                    lemma_field_len(line, ':', line.len() as int);
                    assert(line_record(line) =~= Seq::<Record>::empty());
                }
            }
            proof {
                if e < n {
                    assert(s.subrange(e - i + 1, s.len() as int) =~= text@.subrange(e + 1, n as int));
                }
            }
            i = if e < n { e + 1 } else { n };
            proof {
                if i == n {
                    assert(text@.subrange(i as int, n as int) =~= Seq::<char>::empty());
                }
            }
            assert(parse_records(text@) =~= r.records() + parse_records(text@.subrange(i as int, n as int)));
        }
        assert(text@.subrange(n as int, n as int) =~= Seq::<char>::empty());
        assert(r.records() + Seq::<Record>::empty() =~= r.records());
        r
    }

    /// The ledger file: one `name:hash` line per record.
    pub fn save(&self) -> (r: String)
        ensures
            r@ == ledger_text(self.records()),
    {
        let ghost es = self.records();
        let mut r = String::new();
        let mut i: usize = 0;
        proof {
            reveal_strlit(":");
            reveal_strlit("\n");
        }
        assert(es.subrange(0, 0) =~= Seq::<Record>::empty());
        while i < self.entries.len()
            invariant
                es == self.records(),
                0 <= i <= self.entries@.len(),
                r@ == ledger_text(es.subrange(0, i as int)),
            decreases self.entries@.len() - i,
        {
            r.append(self.entries[i].0.as_str());
            r.append(":");
            r.append(self.entries[i].1.as_str());
            r.append("\n");
            proof {
                reveal_strlit(":");
                reveal_strlit("\n");
                assert(es[i as int] == (self.entries@[i as int].0@, self.entries@[i as int].1@));
                assert(es.subrange(0, i + 1) =~= es.subrange(0, i as int).push(es[i as int]));
                lemma_ledger_text_push(es.subrange(0, i as int), es[i as int]);
                assert(r@ =~= ledger_text(es.subrange(0, i + 1)));
            }
            i = i + 1;
        }
        assert(es.subrange(0, i as int) =~= es);
        r
    }
}

} // verus!
