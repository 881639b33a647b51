use vstd::prelude::*;
use vstd::string::StrSliceExecFns;
use vstd::utf8::encode_utf8;
use crate::text::GodotString;

verus! {

/// Hash of the empty content, used as the seed of the mixing.
pub const HASH_SEED: u32 = 5381;

/// Modulus of the content hash: the largest prime below 2^32.
pub const HASH_MOD: u64 = 0xFFFF_FFFB;

/// One mixing step of the content hash.
pub open spec fn hash_step(h: u32, c: char) -> u32 {
    (((h as int) * 31 + (c as int)) % (HASH_MOD as int)) as u32
}

/// A reference count bumped by one, staying put at the ceiling.
pub open spec fn sat_inc(r: u64) -> u64 {
    if r < u64::MAX {
        (r + 1) as u64
    } else {
        r
    }
}

/// Content hash of a character sequence: a function of the content alone, so
/// equal contents always hash equally.
pub open spec fn hash_of(s: Seq<char>) -> u32
    decreases s.len(),
{
    if s.len() == 0 {
        HASH_SEED
    } else {
        hash_step(hash_of(s.drop_last()), s.last())
    }
}

/// Computes the content hash of borrowed text.
fn hash_text(s: &str) -> (h: u32)
    ensures
        h == hash_of(s@),
{
    let n: usize = s.unicode_len();
    let mut h: u32 = HASH_SEED;
    let mut i: usize = 0;
    while i < n
        invariant
            n == s@.len(),
            0 <= i <= n,
            h == hash_of(s@.take(i as int)),
        decreases n - i,
    {
        let c: char = s.get_char(i);
        proof {
            assert(s@.take(i + 1).drop_last() =~= s@.take(i as int));
            assert(s@.take(i + 1).last() == s@[i as int]);
        }
        let v: u64 = (h as u64) * 31 + (c as u64);
        h = (v % HASH_MOD) as u32;
        i = i + 1;
    }
    proof {
        assert(s@.take(n as int) =~= s@);
    }
    h
}

/// A handle to a deduplicated slot of an [`InternTable`]: the slot's index
/// together with the cached byte length and content hash. Handles are cheap
/// to copy; equality over the fields coincides, for valid handles of one
/// table, with equality of the interned content.
#[derive(Clone, Copy, PartialEq, Eq, Structural, Hash, Debug)]
pub struct StringName {
    pub idx: usize,
    pub len: usize,
    pub hash: u32,
}

impl StringName {
    /// The handle of the interned empty string: slot 0 of every table.
    pub open spec fn spec_default() -> StringName {
        StringName { idx: 0, len: 0, hash: HASH_SEED }
    }

    /// Length of the content in bytes of its canonical encoding (cached).
    pub fn len(&self) -> (r: usize)
        ensures
            r == self.len,
    {
        self.len
    }

    /// Whether the content is empty.
    pub fn is_empty(&self) -> (r: bool)
        ensures
            r == (self.len == 0),
    {
        self.len == 0
    }

    /// The cached content hash.
    pub fn hash_value(&self) -> (r: u32)
        ensures
            r == self.hash,
    {
        self.hash
    }
}

impl Default for StringName {
    /// The interned empty string, valid for every well-formed table.
    fn default() -> (r: Self)
        ensures
            r == StringName::spec_default(),
    {
        StringName { idx: 0, len: 0, hash: HASH_SEED }
    }
}

/// One slot of the intern table. `refs == 0` marks an evicted slot; its index
/// is never reused, so stale handles can never alias new content.
pub struct Entry {
    pub text: GodotString,
    pub hash: u32,
    pub refs: u64,
}

/// The interning table: each distinct live content occupies exactly one slot,
/// reference-counted; slot 0 permanently holds the empty string.
pub struct InternTable {
    pub entries: Vec<Entry>,
}

impl InternTable {
    /// Slot `i` exists and is live (still referenced).
    pub open spec fn live(self, i: int) -> bool {
        0 <= i < self.entries@.len() && self.entries@[i].refs > 0
    }

    /// Content of the slot a handle points at.
    pub open spec fn content(self, n: StringName) -> Seq<char> {
        self.entries@[n.idx as int].text@
    }

    /// The handle points at a live slot and its cached fields agree with that
    /// slot's content.
    pub open spec fn valid(self, n: StringName) -> bool {
        &&& self.live(n.idx as int)
        &&& n.len == encode_utf8(self.content(n)).len() as usize
        &&& n.hash == hash_of(self.content(n))
    }

    /// Whether some live slot holds this content.
    pub open spec fn spec_contains(self, s: Seq<char>) -> bool {
        exists|i: int| self.live(i) && (#[trigger] self.entries@[i]).text@ == s
    }

    /// Reference count of slot `i`.
    pub open spec fn refs_at(self, i: int) -> u64 {
        self.entries@[i].refs
    }

    /// Well-formedness: slot 0 is the permanent empty string, every slot
    /// caches the hash of its content, and live contents are pairwise
    /// distinct (deduplication).
    pub open spec fn wf(self) -> bool {
        &&& self.entries@.len() >= 1
        &&& self.entries@[0].text@ === Seq::<char>::empty()
        &&& self.entries@[0].refs > 0
        &&& forall|i: int|
            0 <= i < self.entries@.len() ==> (#[trigger] self.entries@[i]).hash == hash_of(
                self.entries@[i].text@,
            )
        &&& forall|i: int, j: int|
            #![trigger self.live(i), self.live(j)]
            self.live(i) && self.live(j) && i != j ==> self.entries@[i].text@
                != self.entries@[j].text@
    }

    /// A fresh table holding only the interned empty string.
    pub fn new() -> (t: InternTable)
        ensures
            t.wf(),
            t.valid(StringName::spec_default()),
            t.content(StringName::spec_default()) === Seq::<char>::empty(),
    {
        let mut entries: Vec<Entry> = Vec::new();
        entries.push(Entry { text: GodotString::new(), hash: HASH_SEED, refs: 1 });
        InternTable { entries }
    }

    /// Interns a text value. The slot already holding equal content is reused
    /// (its reference count bumped); otherwise a fresh slot is appended. The
    /// returned handle's content is exactly the given text; equal text always
    /// yields the very same handle, and every previously valid handle stays
    /// valid with unchanged content. Empty text yields the default handle.
    pub fn intern(&mut self, text: &GodotString) -> (n: StringName)
        requires
            old(self).wf(),
        ensures
            final(self).wf(),
            final(self).valid(n),
            final(self).content(n) == text@,
            forall|m: StringName|
                old(self).valid(m) ==> final(self).valid(m) && final(self).content(m) == old(self).content(m),
            forall|m: StringName| old(self).valid(m) && old(self).content(m) == text@ ==> n == m,
            text@.len() == 0 ==> n == StringName::spec_default(),
            forall|j: int|
                0 <= j < old(self).entries@.len() && j != n.idx as int ==> final(self).entries@[j]
                    == old(self).entries@[j],
            old(self).spec_contains(text@) ==> final(self).entries@.len() == old(self).entries@.len()
                && final(self).refs_at(n.idx as int) == sat_inc(old(self).refs_at(n.idx as int)),
            !old(self).spec_contains(text@) ==> final(self).entries@.len() == old(self).entries@.len()
                + 1 && n.idx == old(self).entries@.len() && final(self).refs_at(n.idx as int) == 1,
    {
        let len_b: usize = text.byte_len();
        let h: u32 = hash_text(text.as_str());
        let n_entries: usize = self.entries.len();
        let mut i: usize = 0;
        while i < n_entries
            invariant
                *self == *old(self),
                old(self).wf(),
                n_entries == self.entries@.len(),
                0 <= i <= n_entries,
                forall|j: int| 0 <= j < i ==> !(self.live(j) && self.entries@[j].text@ == text@),
                len_b == encode_utf8(text@).len() as usize,
                h == hash_of(text@),
            decreases n_entries - i,
        {
            let is_live: bool = self.entries[i].refs > 0;
            if is_live && self.entries[i].text == *text {
                let r: u64 = self.entries[i].refs;
                if r < u64::MAX {
                    self.entries[i].refs = r + 1;
                }
                let n = StringName { idx: i, len: len_b, hash: h };
                proof {
                    assert(old(self).live(i as int) && old(self).entries@[i as int].text@
                        == text@);
                    assert(old(self).spec_contains(text@));
                    assert(self.entries@.len() == old(self).entries@.len());
                    assert(forall|j: int|
                        0 <= j < self.entries@.len() ==> (#[trigger] self.entries@[j]).text
                            == old(self).entries@[j].text && self.entries@[j].hash == old(
                            self,
                        ).entries@[j].hash);
                    assert(forall|j: int| old(self).live(j) ==> #[trigger] self.live(j));
                    assert(forall|j: int| #[trigger] self.live(j) ==> old(self).live(j));
                    assert(self.wf());
                    assert(self.valid(n));
                    assert forall|m: StringName|
                        old(self).valid(m) && old(self).content(m) == text@ implies n == m by {
                        assert(old(self).live(m.idx as int));
                        assert(old(self).live(i as int));
                        assert(m.idx == i);
                    }
                    if text@.len() == 0 {
                        assert(old(self).entries@[0].text@ =~= text@);
                        assert(old(self).live(0));
                        assert(i == 0);
                        assert(encode_utf8(Seq::<char>::empty()).len() == 0);
                        assert(hash_of(Seq::<char>::empty()) == HASH_SEED);
                    }
                }
                return n;
            }
            i = i + 1;
        }
        proof {
            if text@.len() == 0 {
                assert(old(self).live(0));
                assert(old(self).entries@[0].text@ =~= text@);
                assert(false);
            }
        }
        self.entries.push(Entry { text: text.clone(), hash: h, refs: 1 });
        proof {
            let k = n_entries as int;
            assert(self.entries@.len() == k + 1);
            assert(forall|j: int|
                0 <= j < k ==> #[trigger] self.entries@[j] == old(self).entries@[j]);
            assert(forall|j: int| 0 <= j < k ==> (old(self).live(j) <==> self.live(j)));
            assert(self.entries@[k].text@ == text@);
            assert(self.live(k));
            assert(forall|j: int|
                0 <= j < k ==> !(#[trigger] self.live(j) && self.entries@[j].text@ == text@));
            assert(self.wf());
            assert forall|m: StringName| old(self).valid(m) && old(self).content(m) == text@
                implies false by {
                assert(old(self).live(m.idx as int));
            }
            if old(self).spec_contains(text@) {
                let w = choose|j: int|
                    old(self).live(j) && (#[trigger] old(self).entries@[j]).text@ == text@;
                assert(false);
            }
        }
        StringName { idx: n_entries, len: len_b, hash: h }
    }

    /// Interns borrowed text directly, with the deduplication contract of
    /// [`Self::intern`].
    pub fn intern_str(&mut self, s: &str) -> (n: StringName)
        requires
            old(self).wf(),
        ensures
            final(self).wf(),
            final(self).valid(n),
            final(self).content(n) == s@,
            forall|m: StringName|
                old(self).valid(m) ==> final(self).valid(m) && final(self).content(m) == old(self).content(m),
            forall|m: StringName| old(self).valid(m) && old(self).content(m) == s@ ==> n == m,
            s@.len() == 0 ==> n == StringName::spec_default(),
    {
        let g = GodotString::from_str(s);
        self.intern(&g)
    }

    /// Interns a null-terminated ASCII sequence without a text validation
    /// pass: a shortcut for statically known identifiers. The content is the
    /// sequence without its terminator.
    pub fn intern_ascii_cstr(&mut self, s: &str) -> (n: StringName)
        requires
            old(self).wf(),
            s.is_ascii(),
            s@.len() >= 1,
            s@.last() == '\u{0}',
        ensures
            final(self).wf(),
            final(self).valid(n),
            final(self).content(n) == s@.drop_last(),
            forall|m: StringName|
                old(self).valid(m) ==> final(self).valid(m) && final(self).content(m) == old(self).content(m),
            forall|m: StringName|
                old(self).valid(m) && old(self).content(m) == s@.drop_last() ==> n == m,
    {
        let n_chars: usize = s.unicode_len();
        let body: &str = s.substring_ascii(0, n_chars - 1);
        proof {
            assert(body@ =~= s@.drop_last());
        }
        self.intern_str(body)
    }

    /// Clones a handle: bumps the slot's reference count and returns an equal
    /// handle; no content diverges.
    pub fn clone_name(&mut self, n: StringName) -> (m: StringName)
        requires
            old(self).wf(),
            old(self).valid(n),
        ensures
            final(self).wf(),
            m == n,
            final(self).valid(n),
            final(self).content(n) == old(self).content(n),
            forall|k: StringName|
                old(self).valid(k) ==> final(self).valid(k) && final(self).content(k) == old(self).content(k),
            final(self).entries@.len() == old(self).entries@.len(),
            forall|j: int|
                0 <= j < old(self).entries@.len() && j != n.idx as int ==> final(self).entries@[j]
                    == old(self).entries@[j],
            final(self).refs_at(n.idx as int) == sat_inc(old(self).refs_at(n.idx as int)),
    {
        let r: u64 = self.entries[n.idx].refs;
        if r < u64::MAX {
            self.entries[n.idx].refs = r + 1;
        }
        proof {
            assert(self.entries@.len() == old(self).entries@.len());
            assert(forall|j: int|
                0 <= j < self.entries@.len() ==> (#[trigger] self.entries@[j]).text == old(
                    self,
                ).entries@[j].text && self.entries@[j].hash == old(self).entries@[j].hash);
            assert(forall|j: int| old(self).live(j) ==> #[trigger] self.live(j));
            assert(forall|j: int| #[trigger] self.live(j) ==> old(self).live(j));
            assert(self.wf());
        }
        n
    }

    /// Releases a handle: decrements the slot's reference count, evicting the
    /// slot when the last reference goes away. Slot 0, the empty string, is
    /// permanent. Handles of other slots are unaffected.
    pub fn release(&mut self, n: StringName)
        requires
            old(self).wf(),
            old(self).valid(n),
        ensures
            final(self).wf(),
            forall|k: StringName|
                old(self).valid(k) && k.idx != n.idx ==> final(self).valid(k) && final(self).content(k) == old(
                    self,
                ).content(k),
            final(self).entries@.len() == old(self).entries@.len(),
            forall|j: int|
                0 <= j < old(self).entries@.len() && j != n.idx as int ==> final(self).entries@[j]
                    == old(self).entries@[j],
            final(self).entries@[n.idx as int].text == old(self).entries@[n.idx as int].text,
            final(self).entries@[n.idx as int].hash == old(self).entries@[n.idx as int].hash,
            final(self).refs_at(n.idx as int) as int == (if old(self).refs_at(n.idx as int) > 1 {
                old(self).refs_at(n.idx as int) - 1
            } else if n.idx != 0 {
                0
            } else {
                old(self).refs_at(n.idx as int) as int
            }),
    {
        let r: u64 = self.entries[n.idx].refs;
        if r > 1 {
            self.entries[n.idx].refs = r - 1;
        } else if n.idx != 0 {
            self.entries[n.idx].refs = 0;
        }
        proof {
            assert(self.entries@.len() == old(self).entries@.len());
            assert(forall|j: int|
                0 <= j < self.entries@.len() ==> (#[trigger] self.entries@[j]).text == old(
                    self,
                ).entries@[j].text && self.entries@[j].hash == old(self).entries@[j].hash);
            assert(forall|j: int| #[trigger] self.live(j) ==> old(self).live(j));
            assert(forall|j: int|
                old(self).live(j) && j != n.idx as int ==> #[trigger] self.live(j));
            assert(self.wf());
        }
    }

    /// Materializes the content of a handle into a fresh, independent text
    /// value: the conversion back from interned to owned text.
    pub fn to_text(&self, n: StringName) -> (t: GodotString)
        requires
            self.wf(),
            self.valid(n),
        ensures
            t@ == self.content(n),
    {
        self.entries[n.idx].text.clone()
    }
}

/// Two valid handles of one table are equal exactly when their interned
/// contents are equal; and handles of equal content always hash equally.
pub proof fn lemma_name_equality(t: InternTable, n1: StringName, n2: StringName)
    requires
        t.wf(),
        t.valid(n1),
        t.valid(n2),
    ensures
        (n1 == n2) <==> (t.content(n1) == t.content(n2)),
        t.content(n1) == t.content(n2) ==> n1.hash == n2.hash,
{
    if t.content(n1) == t.content(n2) {
        assert(t.live(n1.idx as int));
        assert(t.live(n2.idx as int));
        assert(n1.idx == n2.idx);
        assert(n1 == n2);
    }
}

/// In every well-formed table the default handle is valid and denotes the
/// interned empty string.
pub proof fn lemma_default_is_empty(t: InternTable)
    requires
        t.wf(),
    ensures
        t.valid(StringName::spec_default()),
        t.content(StringName::spec_default()) === Seq::<char>::empty(),
{
    assert(encode_utf8(Seq::<char>::empty()).len() == 0);
    assert(hash_of(Seq::<char>::empty()) == HASH_SEED);
}

} // verus!
