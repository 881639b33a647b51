use vstd::prelude::*;
use vstd::string::StrSliceExecFns;
use vstd::string::StringExecFns;
use crate::intern::{InternTable, StringName};
use crate::text::GodotString;

verus! {

/// The path segment separator.
pub const SEPARATOR: char = '/';

/// Splitting of text into path segments at the separator: always one more
/// segment than separators, so empty text is the single empty segment.
pub open spec fn spec_split(s: Seq<char>) -> Seq<Seq<char>>
    decreases s.len(),
{
    if s.len() == 0 {
        seq![Seq::<char>::empty()]
    } else if s.last() == SEPARATOR {
        spec_split(s.drop_last()).push(Seq::<char>::empty())
    } else {
        let prefix = spec_split(s.drop_last());
        prefix.update(prefix.len() - 1, prefix.last().push(s.last()))
    }
}

/// Joining of path segments with the separator.
pub open spec fn spec_join(ss: Seq<Seq<char>>) -> Seq<char>
    decreases ss.len(),
{
    if ss.len() == 0 {
        Seq::<char>::empty()
    } else if ss.len() == 1 {
        ss[0]
    } else {
        spec_join(ss.drop_last()) + seq![SEPARATOR] + ss.last()
    }
}

/// Splitting always yields at least one segment.
pub proof fn lemma_split_len(s: Seq<char>)
    ensures
        spec_split(s).len() >= 1,
    decreases s.len(),
{
    if s.len() != 0 {
        lemma_split_len(s.drop_last());
    }
}

/// Joining the segments of any text restores the text exactly: the identity
/// behind the lossless round trip of text through a path value.
pub proof fn lemma_join_split(s: Seq<char>)
    ensures
        spec_join(spec_split(s)) == s,
    decreases s.len(),
{
    if s.len() == 0 {
        assert(spec_join(spec_split(s)) =~= s);
    } else {
        let p = s.drop_last();
        lemma_join_split(p);
        lemma_split_len(p);
        let ss = spec_split(p);
        if s.last() == SEPARATOR {
            let t = ss.push(Seq::<char>::empty());
            assert(t.drop_last() =~= ss);
            assert(spec_join(t) == spec_join(ss) + seq![SEPARATOR] + Seq::<char>::empty());
            assert(spec_join(t) =~= s);
        } else {
            let t = ss.update(ss.len() - 1, ss.last().push(s.last()));
            if ss.len() == 1 {
                assert(spec_join(t) == t[0]);
                assert(spec_join(t) =~= s);
            } else {
                assert(t.drop_last() =~= ss.drop_last());
                assert(t.last() == ss.last().push(s.last()));
                assert(spec_join(t) == spec_join(ss.drop_last()) + seq![SEPARATOR]
                    + ss.last().push(s.last()));
                assert(spec_join(ss) == spec_join(ss.drop_last()) + seq![SEPARATOR] + ss.last());
                assert(spec_join(t) =~= spec_join(ss).push(s.last()));
                assert(spec_join(ss).push(s.last()) =~= s);
            }
        }
    }
}

/// A structured path value: a nonempty sequence of path segments together
/// with the rendering that joins them with the separator.
pub struct NodePath {
    pub segments: Vec<GodotString>,
}

impl View for NodePath {
    type V = Seq<Seq<char>>;

    open spec fn view(&self) -> Seq<Seq<char>> {
        self.segments.deep_view()
    }
}

impl NodePath {
    /// A path holds at least one segment.
    pub open spec fn wf(self) -> bool {
        self@.len() >= 1
    }

    /// Parses text into its path segments.
    pub fn from_text(t: &GodotString) -> (p: NodePath)
        ensures
            p.wf(),
            p@ == spec_split(t@),
    {
        let s: &str = t.as_str();
        let n: usize = s.unicode_len();
        let mut segments: Vec<GodotString> = Vec::new();
        let mut start: usize = 0;
        let mut i: usize = 0;
        proof {
            assert(s@.take(0) =~= Seq::<char>::empty());
            assert(s@.subrange(0, 0) =~= Seq::<char>::empty());
            assert(segments.deep_view() =~= Seq::<Seq<char>>::empty());
            assert(spec_split(Seq::<char>::empty()) =~= segments.deep_view().push(
                Seq::<char>::empty(),
            ));
        }
        while i < n
            invariant
                s@ == t@,
                n == s@.len(),
                0 <= start <= i <= n,
                spec_split(s@.take(i as int)) == segments.deep_view().push(
                    s@.subrange(start as int, i as int),
                ),
            decreases n - i,
        {
            let c: char = s.get_char(i);
            proof {
                assert(s@.take(i + 1).drop_last() =~= s@.take(i as int));
                assert(s@.take(i + 1).last() == s@[i as int]);
            }
            if c == SEPARATOR {
                let seg_s: &str = s.substring_char(start, i);
                let g = GodotString::from_str(seg_s);
                let ghost dv0 = segments.deep_view();
                proof {
                    assert(g@ =~= s@.subrange(start as int, i as int));
                }
                segments.push(g);
                proof {
                    assert(segments.deep_view() =~= dv0.push(g@));
                    assert(s@.subrange(i + 1, i + 1) =~= Seq::<char>::empty());
                    assert(spec_split(s@.take(i + 1)) == spec_split(s@.take(i as int)).push(
                        Seq::<char>::empty(),
                    ));
                }
                start = i + 1;
            } else {
                proof {
                    let prefix = spec_split(s@.take(i as int));
                    lemma_split_len(s@.take(i as int));
                    assert(prefix.last() == s@.subrange(start as int, i as int));
                    assert(prefix.update(prefix.len() - 1, prefix.last().push(s@[i as int]))
                        =~= segments.deep_view().push(
                        s@.subrange(start as int, i as int).push(s@[i as int]),
                    ));
                    assert(s@.subrange(start as int, i as int).push(s@[i as int]) =~= s@.subrange(
                        start as int,
                        i + 1,
                    ));
                }
            }
            i = i + 1;
        }
        let seg_s: &str = s.substring_char(start, n);
        let g = GodotString::from_str(seg_s);
        let ghost dv0 = segments.deep_view();
        proof {
            assert(g@ =~= s@.subrange(start as int, n as int));
        }
        segments.push(g);
        proof {
            assert(segments.deep_view() =~= dv0.push(g@));
            assert(s@.take(n as int) =~= s@);
        }
        NodePath { segments }
    }

    /// Renders the path by joining its segments with the separator.
    pub fn render(&self) -> (t: GodotString)
        requires
            self.wf(),
        ensures
            t@ == spec_join(self@),
    {
        let mut out: String = String::from_str(self.segments[0].as_str());
        let n: usize = self.segments.len();
        proof {
            assert(self@.len() == self.segments@.len());
            assert(self@.take(1).len() == 1);
            assert(self@.take(1)[0] == self@[0]);
            assert(out@ == spec_join(self@.take(1)));
        }
        let mut i: usize = 1;
        while i < n
            invariant
                n == self.segments@.len(),
                self@.len() == n,
                1 <= i <= n,
                out@ == spec_join(self@.take(i as int)),
            decreases n - i,
        {
            out.append("/");
            out.append(self.segments[i].as_str());
            proof {
                reveal_strlit("/");
                assert("/"@ =~= seq![SEPARATOR]);
                assert(self@.take(i + 1).drop_last() =~= self@.take(i as int));
                assert(self@.take(i + 1).last() == self@[i as int]);
                assert(out@ =~= spec_join(self@.take(i + 1)));
            }
            i = i + 1;
        }
        proof {
            assert(self@.take(n as int) =~= self@);
        }
        GodotString { text: out }
    }

    /// Builds the path of an interned string's content.
    pub fn from_name(table: &InternTable, n: StringName) -> (p: NodePath)
        requires
            table.wf(),
            table.valid(n),
        ensures
            p.wf(),
            p@ == spec_split(table.content(n)),
    {
        let t = table.to_text(n);
        NodePath::from_text(&t)
    }

    /// Interns the rendering of the path. Converting an interned string to a
    /// path and back must return the very same handle: the rendering of the
    /// split content is, by [`lemma_join_split`], the content itself, and
    /// deduplication then forces the original handle.
    pub fn to_name(&self, table: &mut InternTable) -> (n: StringName)
        requires
            self.wf(),
            old(table).wf(),
        ensures
            final(table).wf(),
            final(table).valid(n),
            final(table).content(n) == spec_join(self@),
            forall|m: StringName|
                old(table).valid(m) ==> final(table).valid(m) && final(table).content(m) == old(
                    table,
                ).content(m),
            forall|m: StringName|
                old(table).valid(m) && old(table).content(m) == spec_join(self@) ==> n == m,
    {
        let t = self.render();
        table.intern(&t)
    }
}

/// The round trip of an interned string through a path value: the rendering
/// of the split of any interned content equals that content, so re-interning
/// it yields, by deduplication, the original handle again.
pub proof fn lemma_path_round_trip(table: InternTable, n: StringName)
    requires
        table.wf(),
        table.valid(n),
    ensures
        spec_join(spec_split(table.content(n))) == table.content(n),
{
    lemma_join_split(table.content(n));
}

} // verus!
