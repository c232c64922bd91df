//! Command paths and their canonical registry keys.
//!
//! A command path is either a single root name or an ordered sequence of
//! names (a command followed by its nested subcommand-group / subcommand
//! names). A path is canonicalized to one key by joining its segments with
//! a separator byte that is not valid inside a command name, so distinct
//! path shapes always get distinct keys.

use vstd::prelude::*;

verus! {

/// The byte that separates path segments in a canonical key: `'|'`.
/// It is not a valid byte inside a command name.
pub const KEY_SEPARATOR: u8 = 124;

/// A command path: a root command name alone, or the ordered names of a
/// command and its nested subcommand levels. Names are UTF-8 bytes.
pub enum CommandPath {
    Root(Vec<u8>),
    Sub(Vec<Vec<u8>>),
}

/// A single path segment is a valid command name: non-empty and free of the
/// separator byte.
pub open spec fn segment_wf(s: Seq<u8>) -> bool {
    &&& s.len() >= 1
    &&& forall|i: int| 0 <= i < s.len() ==> s[i] != KEY_SEPARATOR
}

/// The canonical key of a sequence of segments: the segments joined by the
/// separator byte.
pub open spec fn join_segments(segs: Seq<Seq<u8>>) -> Seq<u8>
    decreases segs.len(),
{
    if segs.len() == 0 {
        Seq::empty()
    } else if segs.len() == 1 {
        segs[0]
    } else {
        segs[0] + seq![KEY_SEPARATOR] + join_segments(segs.drop_first())
    }
}

impl CommandPath {
    /// The segment sequence this path denotes.
    pub open spec fn segments(self) -> Seq<Seq<u8>> {
        match self {
            CommandPath::Root(name) => seq![name@],
            CommandPath::Sub(names) => names@.map_values(|n: Vec<u8>| n@),
        }
    }

    /// A well-formed path has at least one segment and every segment is a
    /// valid command name.
    pub open spec fn wf(self) -> bool {
        &&& self.segments().len() >= 1
        &&& forall|i: int|
            0 <= i < self.segments().len() ==> segment_wf(#[trigger] self.segments()[i])
    }

    /// The canonical key of this path.
    pub open spec fn key_spec(self) -> Seq<u8> {
        join_segments(self.segments())
    }

    /// Computes the canonical registry key of this path.
    pub fn canonical_key(&self) -> (key: Vec<u8>)
        ensures
            key@ == self.key_spec(),
    {
        match self {
            CommandPath::Root(name) => {
                let mut key: Vec<u8> = Vec::new();
                key.extend_from_slice(name.as_slice());
                proof {
                    assert(key@ =~= self.key_spec());
                }
                key
            },
            CommandPath::Sub(names) => {
                let mut key: Vec<u8> = Vec::new();
                let mut i: usize = 0;
                proof {
                    assert(key@ =~= join_segments(names@.map_values(|n: Vec<u8>| n@).take(0)));
                }
                while i < names.len()
                    invariant
                        i <= names.len(),
                        key@ == join_segments(names@.map_values(|n: Vec<u8>| n@).take(i as int)),
                    decreases names.len() - i,
                {
                    if i > 0 {
                        key.push(KEY_SEPARATOR);
                    }
                    key.extend_from_slice(names[i].as_slice());
                    proof {
                        let segs = names@.map_values(|n: Vec<u8>| n@);
                        lemma_join_push(segs.take(i as int), segs[i as int]);
                        assert(segs.take(i as int).push(segs[i as int]) =~= segs.take(
                            i as int + 1,
                        ));
                        if i == 0 {
                            assert(key@ =~= join_segments(segs.take(i as int + 1)));
                        } else {
                            assert(key@ =~= join_segments(segs.take(i as int))
                                + seq![KEY_SEPARATOR] + segs[i as int]);
                        }
                    }
                    i = i + 1;
                }
                proof {
                    let segs = names@.map_values(|n: Vec<u8>| n@);
                    assert(segs.take(names@.len() as int) =~= segs);
                }
                key
            },
        }
    }
}

impl From<Vec<u8>> for CommandPath {
    /// A single name is the root path of that command.
    fn from(name: Vec<u8>) -> (r: CommandPath) {
        CommandPath::Root(name)
    }
}

impl vstd::std_specs::convert::FromSpecImpl<Vec<u8>> for CommandPath {
    open spec fn obeys_from_spec() -> bool {
        true
    }

    open spec fn from_spec(name: Vec<u8>) -> CommandPath {
        CommandPath::Root(name)
    }
}

impl From<Vec<Vec<u8>>> for CommandPath {
    /// A sequence of names is the nested path through those names.
    fn from(names: Vec<Vec<u8>>) -> (r: CommandPath) {
        CommandPath::Sub(names)
    }
}

impl vstd::std_specs::convert::FromSpecImpl<Vec<Vec<u8>>> for CommandPath {
    open spec fn obeys_from_spec() -> bool {
        true
    }

    open spec fn from_spec(names: Vec<Vec<u8>>) -> CommandPath {
        CommandPath::Sub(names)
    }
}

/// A canonical key some well-formed path denotes: the join of at least
/// one valid command name.
pub open spec fn canonical_key_wf(key: Seq<u8>) -> bool {
    exists|segs: Seq<Seq<u8>>|
        {
            &&& segs.len() >= 1
            &&& (forall|i: int| 0 <= i < segs.len() ==> segment_wf(#[trigger] segs[i]))
            &&& join_segments(segs) == key
        }
}

/// A well-formed path's canonical key is well-formed.
pub proof fn lemma_key_of_wf_path(p: CommandPath)
    requires
        p.wf(),
    ensures
        canonical_key_wf(p.key_spec()),
{
    let segs = p.segments();
    assert({
        &&& segs.len() >= 1
        &&& (forall|i: int| 0 <= i < segs.len() ==> segment_wf(#[trigger] segs[i]))
        &&& join_segments(segs) == p.key_spec()
    });
}

/// Checks that a byte string is a valid command name: non-empty and free
/// of the separator byte.
pub fn segment_ok(name: &Vec<u8>) -> (r: bool)
    ensures
        r == segment_wf(name@),
{
    if name.len() == 0 {
        return false;
    }
    let n = name.len();
    let mut i: usize = 0;
    while i < n
        invariant
            n == name.len(),
            i <= n,
            forall|j: int| 0 <= j < i ==> name@[j] != KEY_SEPARATOR,
        decreases n - i,
    {
        if name[i] == KEY_SEPARATOR {
            return false;
        }
        i = i + 1;
    }
    true
}

/// Joining one more segment appends the separator and that segment (or is
/// just that segment when nothing was joined yet).
pub proof fn lemma_join_push(segs: Seq<Seq<u8>>, seg: Seq<u8>)
    ensures
        segs.len() == 0 ==> join_segments(segs.push(seg)) == seg,
        segs.len() >= 1 ==> join_segments(segs.push(seg)) == join_segments(segs)
            + seq![KEY_SEPARATOR] + seg,
    decreases segs.len(),
{
    if segs.len() == 0 {
        assert(join_segments(segs.push(seg)) =~= seg);
    } else if segs.len() == 1 {
        assert(segs.push(seg).drop_first() =~= seq![seg]);
        assert(join_segments(seq![seg]) == seg);
        assert(segs.push(seg)[0] == segs[0]);
        assert(join_segments(segs.push(seg)) == segs[0] + seq![KEY_SEPARATOR] + seg);
    } else {
        lemma_join_push(segs.drop_first(), seg);
        assert(segs.push(seg).drop_first() =~= segs.drop_first().push(seg));
        assert(join_segments(segs.push(seg)) =~= join_segments(segs) + seq![KEY_SEPARATOR]
            + seg);
    }
}

/// The join of a segment sequence starts with the first segment, and —
/// when more segments follow — holds the separator right after it.
proof fn lemma_join_head(segs: Seq<Seq<u8>>)
    requires
        segs.len() >= 1,
    ensures
        segs.len() == 1 ==> join_segments(segs) == segs[0],
        segs.len() >= 2 ==> join_segments(segs).len() > segs[0].len(),
        segs.len() >= 2 ==> join_segments(segs)[segs[0].len() as int] == KEY_SEPARATOR,
        join_segments(segs).len() >= segs[0].len(),
        forall|j: int| 0 <= j < segs[0].len() ==> join_segments(segs)[j] == segs[0][j],
{
    if segs.len() >= 2 {
        assert(join_segments(segs) == segs[0] + seq![KEY_SEPARATOR] + join_segments(
            segs.drop_first(),
        ));
    }
}

/// Law: canonicalization is injective over path shapes. Well-formed
/// segment sequences with equal joins are equal — a root name and any
/// nested path, or two different nested paths, always get distinct keys.
pub proof fn lemma_join_injective(a: Seq<Seq<u8>>, b: Seq<Seq<u8>>)
    requires
        a.len() >= 1,
        b.len() >= 1,
        forall|i: int| 0 <= i < a.len() ==> segment_wf(#[trigger] a[i]),
        forall|i: int| 0 <= i < b.len() ==> segment_wf(#[trigger] b[i]),
        join_segments(a) == join_segments(b),
    ensures
        a == b,
    decreases a.len(),
{
    lemma_join_head(a);
    lemma_join_head(b);
    let ja = join_segments(a);
    let jb = join_segments(b);
    if a[0].len() < b[0].len() {
        if a.len() == 1 {
            assert(ja.len() == a[0].len());
            assert(jb.len() >= b[0].len());
            assert(false);
        } else {
            assert(ja[a[0].len() as int] == KEY_SEPARATOR);
            assert(jb[a[0].len() as int] == b[0][a[0].len() as int]);
            assert(b[0][a[0].len() as int] != KEY_SEPARATOR);
            assert(false);
        }
    }
    if b[0].len() < a[0].len() {
        if b.len() == 1 {
            assert(false);
        } else {
            assert(jb[b[0].len() as int] == KEY_SEPARATOR);
            assert(ja[b[0].len() as int] == a[0][b[0].len() as int]);
            assert(false);
        }
    }
    assert(a[0].len() == b[0].len());
    assert forall|j: int| 0 <= j < a[0].len() implies a[0][j] == b[0][j] by {
        assert(ja[j] == a[0][j]);
        assert(jb[j] == b[0][j]);
    }
    assert(a[0] =~= b[0]);
    if a.len() == 1 && b.len() == 1 {
        assert(a =~= b);
    } else if a.len() == 1 {
        assert(ja.len() == a[0].len());
        assert(jb.len() > b[0].len());
        assert(false);
    } else if b.len() == 1 {
        assert(jb.len() == b[0].len());
        assert(ja.len() > a[0].len());
        assert(false);
    } else {
        let ta = join_segments(a.drop_first());
        let tb = join_segments(b.drop_first());
        assert(ja == a[0] + seq![KEY_SEPARATOR] + ta);
        assert(jb == b[0] + seq![KEY_SEPARATOR] + tb);
        assert(ta.len() == tb.len());
        assert forall|j: int| 0 <= j < ta.len() implies ta[j] == tb[j] by {
            assert(ta[j] == ja[a[0].len() + 1 + j]);
            assert(tb[j] == jb[b[0].len() + 1 + j]);
        }
        assert(ta =~= tb);
        assert(forall|i: int|
            0 <= i < a.drop_first().len() ==> segment_wf(#[trigger] a.drop_first()[i]));
        assert(forall|i: int|
            0 <= i < b.drop_first().len() ==> segment_wf(#[trigger] b.drop_first()[i]));
        lemma_join_injective(a.drop_first(), b.drop_first());
        assert(a =~= b) by {
            assert(a.len() == b.len());
            assert(forall|i: int| 1 <= i < a.len() ==> a[i] == a.drop_first()[i - 1]);
            assert(forall|i: int| 1 <= i < b.len() ==> b[i] == b.drop_first()[i - 1]);
        }
    }
}

/// Law: two well-formed command paths with the same canonical key denote
/// the same path shape — their segment sequences are equal.
pub proof fn lemma_canonical_key_injective(p1: CommandPath, p2: CommandPath)
    requires
        p1.wf(),
        p2.wf(),
        p1.key_spec() == p2.key_spec(),
    ensures
        p1.segments() == p2.segments(),
{
    lemma_join_injective(p1.segments(), p2.segments());
}

} // verus!
