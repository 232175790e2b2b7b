//! The durable allowlist: file format and in-memory store.
//!
//! The allowlist file holds one decimal user identifier per line.
//! Loading tolerates whitespace around each identifier and skips
//! lines that do not parse. The store mirrors the file in memory and
//! records every line it owes to durable storage in a journal, so
//! that reloading what was written provably yields the same set.

use vstd::prelude::*;
use vstd::string::StrSliceExecFns;
use vstd::string::StringExecFns;

use std::collections::HashSet;

use crate::decimal::{dec_i64, fmt_i64, lemma_dec_digits_shape, lemma_parse_roundtrip,
    parse_i64, parse_i64_spec, is_digit};
use crate::text::{trim_spec, trim_str, is_space, lemma_trim_of_trimmed};

verus! {

broadcast use vstd::std_specs::hash::group_hash_axioms;

/// The identifiers a single line contributes: one if its trimmed
/// text parses as an identifier, none otherwise.
pub open spec fn maybe_id(line: Seq<char>) -> Set<i64> {
    match parse_i64_spec(trim_spec(line)) {
        Some(id) => set![id],
        None => Set::<i64>::empty(),
    }
}

/// The identifiers contributed by the rest of a file, with `cur` the
/// part of the current line read so far.
pub open spec fn ids_rec(s: Seq<char>, cur: Seq<char>) -> Set<i64>
    decreases s.len(),
{
    if s.len() == 0 {
        maybe_id(cur)
    } else if s[0] == '\n' {
        maybe_id(cur).union(ids_rec(s.subrange(1, s.len() as int), Seq::<char>::empty()))
    } else {
        ids_rec(s.subrange(1, s.len() as int), cur.push(s[0]))
    }
}

/// The set of identifiers stored in a whitelist file's content.
pub open spec fn whitelist_ids(content: Seq<char>) -> Set<i64> {
    ids_rec(content, Seq::<char>::empty())
}

/// One rendered file line: the identifier in decimal, then a newline.
pub open spec fn line_seq(id: i64) -> Seq<char> {
    dec_i64(id as int) + seq!['\n']
}

/// The lines of a journal, rendered in order.
pub open spec fn rendered_lines(journal: Seq<i64>) -> Seq<char>
    decreases journal.len(),
{
    if journal.len() == 0 {
        Seq::<char>::empty()
    } else {
        rendered_lines(journal.drop_last()) + line_seq(journal.last())
    }
}

/// What the durable file holds after the journal's lines were
/// appended to its initial content.
pub open spec fn durable_content(initial: Seq<char>, journal: Seq<i64>) -> Seq<char> {
    initial + rendered_lines(journal)
}

/// An empty line contributes no identifier.
proof fn lemma_maybe_id_empty()
    ensures
        maybe_id(Seq::<char>::empty()) == Set::<i64>::empty(),
{
    assert(trim_spec(Seq::<char>::empty()) =~= Seq::<char>::empty());
}

/// A rendered line contributes exactly its identifier.
proof fn lemma_maybe_id_rendered(id: i64)
    ensures
        maybe_id(dec_i64(id as int)) == set![id],
{
    let s = dec_i64(id as int);
    lemma_dec_digits_shape(if id >= 0 { id as nat } else { (-(id as int)) as nat });
    assert(s.len() > 0);
    assert(!is_space(s[0]));
    assert(!is_space(s.last()));
    lemma_trim_of_trimmed(s);
    lemma_parse_roundtrip(id);
}

/// Reading a newline-free prefix only extends the current line.
proof fn lemma_ids_no_newline(u: Seq<char>, v: Seq<char>, cur: Seq<char>)
    requires
        forall|j: int| 0 <= j < u.len() ==> #[trigger] u[j] != '\n',
    ensures
        ids_rec(u + v, cur) == ids_rec(v, cur + u),
    decreases u.len(),
{
    if u.len() == 0 {
        assert(u + v =~= v);
        assert(cur + u =~= cur);
    } else {
        assert((u + v)[0] == u[0]);
        let u1 = u.subrange(1, u.len() as int);
        assert((u + v).subrange(1, (u + v).len() as int) =~= u1 + v);
        lemma_ids_no_newline(u1, v, cur.push(u[0]));
        assert(cur.push(u[0]) + u1 =~= cur + u);
    }
}

/// Identifiers of a concatenation split at a newline boundary.
proof fn lemma_ids_concat(s: Seq<char>, t: Seq<char>, cur: Seq<char>)
    requires
        s.len() > 0,
        s.last() == '\n',
    ensures
        ids_rec(s + t, cur) == ids_rec(s, cur).union(ids_rec(t, Seq::<char>::empty())),
    decreases s.len(),
{
    lemma_maybe_id_empty();
    if s.len() == 1 {
        assert((s + t)[0] == '\n');
        assert((s + t).subrange(1, (s + t).len() as int) =~= t);
        assert(s.subrange(1, s.len() as int) =~= Seq::<char>::empty());
        assert(ids_rec(Seq::<char>::empty(), Seq::<char>::empty()) == maybe_id(
            Seq::<char>::empty(),
        ));
        assert(ids_rec(s + t, cur) =~= ids_rec(s, cur).union(ids_rec(t, Seq::<char>::empty())));
    } else {
        let s1 = s.subrange(1, s.len() as int);
        assert(s1.last() == s.last());
        assert((s + t)[0] == s[0]);
        assert((s + t).subrange(1, (s + t).len() as int) =~= s1 + t);
        if s[0] == '\n' {
            lemma_ids_concat(s1, t, Seq::<char>::empty());
            assert(ids_rec(s + t, cur) =~= ids_rec(s, cur).union(
                ids_rec(t, Seq::<char>::empty()),
            ));
        } else {
            lemma_ids_concat(s1, t, cur.push(s[0]));
        }
    }
}

/// A rendered line has no newline before its final character.
proof fn lemma_line_seq_shape(id: i64)
    ensures
        line_seq(id).len() > 0,
        line_seq(id).last() == '\n',
        forall|j: int|
            0 <= j < dec_i64(id as int).len() ==> #[trigger] dec_i64(id as int)[j] != '\n',
{
    let d = dec_i64(id as int);
    lemma_dec_digits_shape(if id >= 0 { id as nat } else { (-(id as int)) as nat });
    assert forall|j: int| 0 <= j < d.len() implies #[trigger] d[j] != '\n' by {
        if id >= 0 {
            assert(is_digit(d[j]));
        } else {
            if j > 0 {
                assert(is_digit(d[j]));
            }
        }
    }
}

/// A rendered line alone stores exactly its identifier.
proof fn lemma_ids_single_line(id: i64)
    ensures
        whitelist_ids(line_seq(id)) == set![id],
{
    let d = dec_i64(id as int);
    lemma_line_seq_shape(id);
    lemma_ids_no_newline(d, seq!['\n'], Seq::<char>::empty());
    assert(d + seq!['\n'] =~= line_seq(id));
    assert(Seq::<char>::empty() + d =~= d);
    let nl = seq!['\n'];
    assert(nl[0] == '\n');
    assert(nl.subrange(1, 1) =~= Seq::<char>::empty());
    lemma_maybe_id_empty();
    lemma_maybe_id_rendered(id);
    assert(ids_rec(Seq::<char>::empty(), Seq::<char>::empty()) == maybe_id(
        Seq::<char>::empty(),
    ));
    assert(ids_rec(nl, d) == maybe_id(d).union(ids_rec(nl.subrange(1, 1), Seq::<char>::empty())));
    assert(ids_rec(nl, d) =~= maybe_id(d));
}

/// Appending one rendered line to well-terminated content adds
/// exactly that identifier to the stored set.
proof fn lemma_append_line(s: Seq<char>, id: i64)
    requires
        s.len() == 0 || s.last() == '\n',
    ensures
        whitelist_ids(s + line_seq(id)) == whitelist_ids(s).insert(id),
{
    lemma_ids_single_line(id);
    if s.len() == 0 {
        assert(s + line_seq(id) =~= line_seq(id));
        lemma_maybe_id_empty();
        assert(whitelist_ids(s + line_seq(id)) =~= whitelist_ids(s).insert(id));
    } else {
        lemma_ids_concat(s, line_seq(id), Seq::<char>::empty());
        assert(whitelist_ids(s).union(set![id]) =~= whitelist_ids(s).insert(id));
    }
}

/// Rendered journal lines are empty or end with a newline.
proof fn lemma_rendered_terminated(journal: Seq<i64>)
    ensures
        rendered_lines(journal).len() == 0 || rendered_lines(journal).last() == '\n',
{
    if journal.len() > 0 {
        lemma_line_seq_shape(journal.last());
    }
}

/// Reloading the durable file yields the initial identifiers plus
/// everything the journal appended, whatever order or duplication the
/// journal holds.
pub proof fn lemma_reload_roundtrip(initial: Seq<char>, journal: Seq<i64>)
    requires
        initial.len() == 0 || initial.last() == '\n',
    ensures
        whitelist_ids(durable_content(initial, journal)) == whitelist_ids(initial).union(
            journal.to_set(),
        ),
    decreases journal.len(),
{
    if journal.len() == 0 {
        assert(durable_content(initial, journal) =~= initial);
        assert(journal.to_set() =~= Set::<i64>::empty());
        assert(whitelist_ids(initial).union(journal.to_set()) =~= whitelist_ids(initial));
    } else {
        let j1 = journal.drop_last();
        let id = journal.last();
        lemma_reload_roundtrip(initial, j1);
        let prev = durable_content(initial, j1);
        lemma_rendered_terminated(j1);
        assert(prev.len() == 0 || prev.last() == '\n') by {
            if rendered_lines(j1).len() == 0 {
                assert(prev =~= initial);
            } else {
                assert(prev.last() == rendered_lines(j1).last());
            }
        }
        lemma_append_line(prev, id);
        assert(durable_content(initial, journal) =~= prev + line_seq(id));
        assert(journal.to_set() =~= j1.to_set().insert(id)) by {
            assert forall|x: i64| journal.to_set().contains(x) implies j1.to_set().insert(
                id,
            ).contains(x) by {
                let k = choose|k: int| 0 <= k < journal.len() && journal[k] == x;
                if k < journal.len() - 1 {
                    assert(j1[k] == x);
                }
            }
            assert forall|x: i64| j1.to_set().insert(id).contains(x) implies journal
                .to_set().contains(x) by {
                if x == id {
                    assert(journal[journal.len() - 1] == x);
                } else {
                    let k = choose|k: int| 0 <= k < j1.len() && j1[k] == x;
                    assert(journal[k] == x);
                }
            }
        }
        assert(whitelist_ids(initial).union(j1.to_set()).insert(id) =~= whitelist_ids(
            initial,
        ).union(journal.to_set()));
    }
}

/// Reads the identifiers stored in whitelist file content, skipping
/// whitespace and unparsable lines.
pub fn load_whitelist(content: &str) -> (ids: HashSet<i64>)
    ensures
        ids@ == whitelist_ids(content@),
{
    let len = content.unicode_len();
    let mut acc: HashSet<i64> = HashSet::new();
    let mut line_start: usize = 0;
    let mut i: usize = 0;
    proof {
        assert(content@.subrange(0, len as int) =~= content@);
        assert(content@.subrange(0, 0) =~= Seq::<char>::empty());
        assert(acc@.union(whitelist_ids(content@)) =~= whitelist_ids(content@));
    }
    while i < len
        invariant
            0 <= line_start <= i <= len,
            len == content@.len(),
            whitelist_ids(content@) == acc@.union(
                ids_rec(
                    content@.subrange(i as int, len as int),
                    content@.subrange(line_start as int, i as int),
                ),
            ),
        decreases len - i,
    {
        let c = content.get_char(i);
        let ghost rest = content@.subrange(i as int, len as int);
        let ghost cur = content@.subrange(line_start as int, i as int);
        proof {
            assert(rest[0] == c);
            assert(rest.subrange(1, rest.len() as int) =~= content@.subrange(
                i + 1,
                len as int,
            ));
        }
        if c == '\n' {
            let ghost acc0 = acc@;
            proof {
                assert(ids_rec(rest, cur) == maybe_id(cur).union(
                    ids_rec(content@.subrange(i + 1, len as int), Seq::<char>::empty()),
                ));
            }
            let line = content.substring_char(line_start, i);
            let trimmed = trim_str(line);
            match parse_i64(trimmed) {
                Some(id) => {
                    acc.insert(id);
                },
                None => {},
            }
            proof {
                assert(acc@ =~= acc0.union(maybe_id(cur)));
                assert(acc0.union(ids_rec(rest, cur)) =~= acc@.union(
                    ids_rec(content@.subrange(i + 1, len as int), Seq::<char>::empty()),
                ));
                assert(content@.subrange(i + 1, i + 1) =~= Seq::<char>::empty());
            }
            line_start = i + 1;
        } else {
            proof {
                assert(cur.push(c) =~= content@.subrange(line_start as int, i + 1));
                assert(ids_rec(rest, cur) == ids_rec(
                    content@.subrange(i + 1, len as int),
                    content@.subrange(line_start as int, i + 1),
                ));
            }
        }
        i = i + 1;
    }
    let ghost acc0 = acc@;
    let ghost cur = content@.subrange(line_start as int, len as int);
    proof {
        assert(content@.subrange(len as int, len as int) =~= Seq::<char>::empty());
        assert(ids_rec(Seq::<char>::empty(), cur) == maybe_id(cur));
    }
    let line = content.substring_char(line_start, len);
    let trimmed = trim_str(line);
    match parse_i64(trimmed) {
        Some(id) => {
            acc.insert(id);
        },
        None => {},
    }
    proof {
        assert(acc@ =~= acc0.union(maybe_id(cur)));
        assert(acc@ =~= whitelist_ids(content@));
    }
    acc
}

/// The in-memory mirror of the allowlist, with the journal of lines
/// owed to durable storage since loading.
pub struct AllowlistStore {
    cache: HashSet<i64>,
    journal: Vec<i64>,
    initial: Ghost<Seq<char>>,
}

impl AllowlistStore {
    /// The set of allowlisted identifiers.
    pub closed spec fn ids(&self) -> Set<i64> {
        self.cache@
    }

    /// The identifiers appended to durable storage since loading.
    pub closed spec fn journal_ids(&self) -> Seq<i64> {
        self.journal@
    }

    /// The durable file content the store was loaded from.
    pub closed spec fn initial_content(&self) -> Seq<char> {
        self.initial@
    }

    /// The in-memory set mirrors the initial file plus the journal,
    /// and the journal never repeats an identifier nor re-appends one
    /// already durable.
    pub open spec fn wf(&self) -> bool {
        &&& self.ids() == whitelist_ids(self.initial_content()).union(self.journal_ids().to_set())
        &&& self.journal_ids().no_duplicates()
        &&& forall|k: int|
            0 <= k < self.journal_ids().len() ==> !whitelist_ids(self.initial_content()).contains(
                #[trigger] self.journal_ids()[k],
            )
    }

    /// Loads the store from the durable file's content. Reading the
    /// file itself is the caller's concern; a missing or unreadable
    /// file is passed in as empty content and yields an empty set.
    pub fn load(content: &str) -> (s: Self)
        ensures
            s.wf(),
            s.ids() == whitelist_ids(content@),
            s.journal_ids() == Seq::<i64>::empty(),
            s.initial_content() == content@,
    {
        let cache = load_whitelist(content);
        let s = AllowlistStore { cache, journal: Vec::new(), initial: Ghost(content@) };
        proof {
            assert(s.journal_ids().to_set() =~= Set::<i64>::empty());
            assert(s.ids() =~= whitelist_ids(content@).union(s.journal_ids().to_set()));
        }
        s
    }

    /// Membership in the in-memory mirror.
    pub fn contains(&self, id: i64) -> (r: bool)
        ensures
            r == self.ids().contains(id),
    {
        self.cache.contains(&id)
    }

    /// Inserts an identifier. Returns the line the caller must append
    /// to durable storage, or nothing when the identifier was already
    /// present: a repeated insertion appends nothing.
    pub fn add(&mut self, id: i64) -> (line: Option<String>)
        requires
            old(self).wf(),
        ensures
            final(self).wf(),
            final(self).ids() == old(self).ids().insert(id),
            final(self).initial_content() == old(self).initial_content(),
            line is Some <==> !old(self).ids().contains(id),
            match line {
                Some(l) => {
                    &&& l@ == line_seq(id)
                    &&& final(self).journal_ids() == old(self).journal_ids().push(id)
                },
                None => final(self).journal_ids() == old(self).journal_ids(),
            },
    {
        if self.cache.contains(&id) {
            proof {
                assert(self.ids() =~= old(self).ids().insert(id));
            }
            return None;
        }
        self.cache.insert(id);
        self.journal.push(id);
        let mut l = fmt_i64(id);
        proof {
            reveal_strlit("\n");
        }
        l.append("\n");
        proof {
            assert(l@ =~= line_seq(id));
            let j0 = old(self).journal_ids();
            let j1 = self.journal_ids();
            assert(j1 == j0.push(id));
            assert(j1.to_set() =~= j0.to_set().insert(id)) by {
                assert forall|x: i64| j1.to_set().contains(x) implies j0.to_set().insert(
                    id,
                ).contains(x) by {
                    let k = choose|k: int| 0 <= k < j1.len() && j1[k] == x;
                    if k < j0.len() {
                        assert(j0[k] == x);
                    }
                }
                assert forall|x: i64| j0.to_set().insert(id).contains(x) implies j1
                    .to_set().contains(x) by {
                    if x == id {
                        assert(j1[j1.len() - 1] == x);
                    } else {
                        let k = choose|k: int| 0 <= k < j0.len() && j0[k] == x;
                        assert(j1[k] == x);
                    }
                }
            }
            assert(self.ids() =~= old(self).ids().insert(id));
            assert(!old(self).ids().contains(id));
            assert(self.initial_content() == old(self).initial_content());
            assert(self.ids() =~= whitelist_ids(self.initial_content()).union(j1.to_set()));
            assert forall|k: int| 0 <= k < j1.len() implies !whitelist_ids(
                self.initial_content(),
            ).contains(#[trigger] j1[k]) by {
                if k < j0.len() {
                    assert(j1[k] == j0[k]);
                } else {
                    assert(j1[k] == id);
                    assert(old(self).ids() == whitelist_ids(old(self).initial_content()).union(
                        j0.to_set(),
                    ));
                }
            }
            assert(j1.no_duplicates()) by {
                assert forall|p: int, q: int|
                    0 <= p < j1.len() && 0 <= q < j1.len() && p != q implies j1[p]
                    != j1[q] by {
                    if p < j0.len() && q < j0.len() {
                        assert(j0[p] == j1[p] && j0[q] == j1[q]);
                    } else if p < j0.len() {
                        assert(j0.contains(j0[p]));
                        assert(j0.to_set().contains(j0[p]));
                        assert(old(self).ids().contains(j0[p]));
                    } else if q < j0.len() {
                        assert(j0.contains(j0[q]));
                        assert(j0.to_set().contains(j0[q]));
                        assert(old(self).ids().contains(j0[q]));
                    }
                }
            }
        }
        Some(l)
    }

    /// Reloading everything this store made durable yields exactly
    /// its in-memory set: the whitelist survives a restart.
    pub proof fn lemma_reload_yields_ids(&self)
        requires
            self.wf(),
            self.initial_content().len() == 0 || self.initial_content().last() == '\n',
        ensures
            whitelist_ids(durable_content(self.initial_content(), self.journal_ids()))
                == self.ids(),
    {
        lemma_reload_roundtrip(self.initial_content(), self.journal_ids());
    }
}

} // verus!
