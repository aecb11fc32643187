//! The string table: interns every string referenced by a descriptor into one
//! contiguous byte blob with stable `(offset, length)` locations.
//!
//! The empty string is a permanent sentinel at `(0, 0)` and is never stored.
//! Byte 0 of the blob is reserved so that no real string ever sits at offset
//! 0: some canonical-ABI consumers treat a zero pointer as "absent" even when
//! the length is nonzero.

use vstd::prelude::*;

verus! {

use vstd::utf8::encode_utf8;

/// The byte encoding a string contributes to the table.
pub open spec fn str_bytes(s: Seq<char>) -> Seq<u8> {
    encode_utf8(s)
}

/// Mathematical model of a string table: the blob and the interned entries,
/// in insertion order. Each entry is `(content, offset, length)`.
pub struct TableModel {
    pub data: Seq<u8>,
    pub entries: Seq<(Seq<char>, u32, u32)>,
}

/// First entry whose content equals `s`, if any.
pub open spec fn find_entry(entries: Seq<(Seq<char>, u32, u32)>, s: Seq<char>) -> Option<(
    u32,
    u32,
)>
    decreases entries.len(),
{
    if entries.len() == 0 {
        None
    } else if entries[0].0 == s {
        Some((entries[0].1, entries[0].2))
    } else {
        find_entry(entries.drop_first(), s)
    }
}

pub open spec fn entry_wf(m: TableModel, i: int) -> bool {
    &&& m.entries[i].0.len() > 0
    &&& m.entries[i].1 >= 1
    &&& m.entries[i].2 == str_bytes(m.entries[i].0).len()
    &&& m.entries[i].1 + m.entries[i].2 <= m.data.len()
    &&& m.data.subrange(
        m.entries[i].1 as int,
        m.entries[i].1 + m.entries[i].2,
    ) == str_bytes(m.entries[i].0)
}

/// Well-formedness of the table model: the sentinel byte is in place, every
/// entry points at its own bytes inside the blob, and contents are distinct.
pub open spec fn table_wf(m: TableModel) -> bool {
    &&& m.data.len() >= 1
    &&& m.data[0] == 0u8
    &&& m.data.len() <= u32::MAX
    &&& forall|i: int| 0 <= i < m.entries.len() ==> entry_wf(m, i)
    &&& forall|i: int, j: int|
        0 <= i < j < m.entries.len() ==> m.entries[i].0 != m.entries[j].0
}

/// The location a lookup yields: the sentinel for the empty or unseen string,
/// the recorded location otherwise.
pub open spec fn spec_get(m: TableModel, s: Seq<char>) -> (u32, u32) {
    if s.len() == 0 {
        (0u32, 0u32)
    } else {
        match find_entry(m.entries, s) {
            Some(loc) => loc,
            None => (0u32, 0u32),
        }
    }
}

/// What interning does to the model: nothing for the empty or already-interned
/// string, an append at the current end of the blob otherwise.
pub open spec fn spec_intern(m: TableModel, s: Seq<char>) -> (TableModel, (u32, u32)) {
    if s.len() == 0 {
        (m, (0u32, 0u32))
    } else {
        match find_entry(m.entries, s) {
            Some(loc) => (m, loc),
            None => {
                let loc = (m.data.len() as u32, str_bytes(s).len() as u32);
                (
                    TableModel {
                        data: m.data + str_bytes(s),
                        entries: m.entries.push((s, loc.0, loc.1)),
                    },
                    loc,
                )
            },
        }
    }
}

/// The model of a freshly created table: one sentinel byte, no entries.
pub open spec fn empty_table_model() -> TableModel {
    TableModel { data: seq![0u8], entries: Seq::empty() }
}

/// The string table builder.
pub struct StringTable {
    data: Vec<u8>,
    entries: Vec<(String, u32, u32)>,
}

impl View for StringTable {
    type V = TableModel;

    closed spec fn view(&self) -> TableModel {
        TableModel {
            data: self.data@,
            entries: Seq::new(
                self.entries@.len(),
                |i: int| (self.entries@[i].0@, self.entries@[i].1, self.entries@[i].2),
            ),
        }
    }
}

impl StringTable {
    pub open spec fn wf(&self) -> bool {
        table_wf(self@)
    }

    /// A new table holding only the sentinel byte.
    pub fn new() -> (t: StringTable)
        ensures
            t.wf(),
            t@ == empty_table_model(),
    {
        let mut data: Vec<u8> = Vec::new();
        data.push(0u8);
        let t = StringTable { data, entries: Vec::new() };
        proof {
            assert(t@.data =~= seq![0u8]);
            assert(t@.entries =~= Seq::<(Seq<char>, u32, u32)>::empty());
        }
        t
    }

    /// Number of bytes in the blob so far.
    pub fn data_len(&self) -> (n: usize)
        ensures
            n == self@.data.len(),
    {
        self.data.len()
    }

    /// The finished blob.
    pub fn data(&self) -> (d: &Vec<u8>)
        ensures
            d@ == self@.data,
    {
        &self.data
    }

    /// Look up the location of an already-interned string; the empty and the
    /// unseen string both resolve to the sentinel `(0, 0)`.
    #[verifier::loop_isolation(false)]
    pub fn get(&self, s: &str) -> (r: (u32, u32))
        requires
            self.wf(),
        ensures
            r == spec_get(self@, s@),
    {
        let slen = s.unicode_len();
        if slen == 0 {
            return (0u32, 0u32);
        }
        proof {
            assert(slen as nat == s@.len());
            assert(s@.len() != 0);
        }
        let key: String = s.to_owned();
        let n = self.entries.len();
        let mut i: usize = 0;
        proof {
            assert(self@.entries.skip(0) =~= self@.entries);
        }
        while i < n
            invariant
                n == self.entries.len(),
                0 <= i <= n,
                key@ == s@,
                find_entry(self@.entries, s@) == find_entry(self@.entries.skip(i as int), s@),
            decreases n - i,
        {
            let e = &self.entries[i];
            if e.0 == key {
                proof {
                    assert(self@.entries.skip(i as int)[0] == self@.entries[i as int]);
                    assert(self@.entries[i as int].0 == s@);
                    assert(find_entry(self@.entries.skip(i as int), s@) == Some::<(u32, u32)>(
                        (self@.entries[i as int].1, self@.entries[i as int].2),
                    ));
                }
                let r0 = self.entries[i].1;
                let r1 = self.entries[i].2;
                proof {
                    assert(r0 == self@.entries[i as int].1);
                    assert(r1 == self@.entries[i as int].2);
                    assert(s@.len() != 0);
                    assert(find_entry(self@.entries, s@) == Some::<(u32, u32)>((r0, r1)));
                    assert(spec_get(self@, s@) == (r0, r1));
                }
                return (r0, r1);
            }
            proof {
                assert(self@.entries.skip(i as int).drop_first() =~= self@.entries.skip(
                    i as int + 1,
                ));
            }
            i = i + 1;
        }
        proof {
            assert(self@.entries.skip(n as int) =~= Seq::<(Seq<char>, u32, u32)>::empty());
        }
        (0u32, 0u32)
    }

    /// Intern a string: idempotent, and a no-op for the empty string.
    #[verifier::loop_isolation(false)]
    pub fn intern(&mut self, s: &str) -> (r: (u32, u32))
        requires
            old(self).wf(),
            old(self)@.data.len() + str_bytes(s@).len() <= u32::MAX,
        ensures
            final(self).wf(),
            (final(self)@, r) == spec_intern(old(self)@, s@),
    {
        if s.unicode_len() == 0 {
            return (0u32, 0u32);
        }
        let existing = self.get(s);
        if !(existing.0 == 0 && existing.1 == 0) {
            proof {
                lemma_find_entry_some(old(self)@, s@);
            }
            return existing;
        }
        // `get` returned the sentinel: by well-formedness no real entry sits
        // at offset 0, so the string is not interned yet.
        proof {
            lemma_find_entry_some(old(self)@, s@);
        }
        let offset = self.data.len() as u32;
        let bytes = s.as_bytes();
        let len = s.len() as u32;
        let mut k: usize = 0;
        let ghost pre_data = self.data@;
        while k < bytes.len()
            invariant
                bytes@ == str_bytes(s@),
                0 <= k <= bytes.len(),
                self.data@ == pre_data + bytes@.take(k as int),
                self.entries == old(self).entries,
            decreases bytes.len() - k,
        {
            let b = bytes[k];
            self.data.push(b);
            proof {
                assert(pre_data + bytes@.take(k as int) + seq![bytes@[k as int]] =~= pre_data
                    + bytes@.take(k as int + 1));
            }
            k = k + 1;
        }
        proof {
            assert(bytes@.take(bytes@.len() as int) =~= bytes@);
        }
        let key: String = s.to_owned();
        self.entries.push((key, offset, len));
        proof {
            let m0 = old(self)@;
            let m1 = self@;
            let newe = (s@, offset, len);
            assert(m1.data =~= m0.data + str_bytes(s@));
            assert(m1.entries =~= m0.entries.push(newe));
            assert forall|i: int| 0 <= i < m1.entries.len() implies entry_wf(m1, i) by {
                if i < m0.entries.len() {
                    assert(entry_wf(m0, i));
                    assert(m1.data.subrange(
                        m1.entries[i].1 as int,
                        m1.entries[i].1 + m1.entries[i].2,
                    ) =~= m0.data.subrange(
                        m0.entries[i].1 as int,
                        m0.entries[i].1 + m0.entries[i].2,
                    ));
                } else {
                    assert(m1.entries[i] == newe);
                    assert(m1.data.subrange(m0.data.len() as int, m1.data.len() as int)
                        =~= str_bytes(s@));
                }
            }
            assert forall|i: int, j: int| 0 <= i < j < m1.entries.len() implies m1.entries[i].0
                != m1.entries[j].0 by {
                if j == m0.entries.len() {
                    lemma_find_entry_none_no_match(m0.entries, s@, i);
                }
            }
        }
        (offset, len)
    }
}

/// A found location is the location of some well-formed entry, hence never the
/// sentinel; conversely the sentinel is only returned for absent strings.
pub proof fn lemma_find_entry_some(m: TableModel, s: Seq<char>)
    requires
        table_wf(m),
    ensures
        find_entry(m.entries, s) is Some ==> find_entry(m.entries, s)->Some_0.0 >= 1,
{
    assert(m.entries =~= m.entries.skip(0));
    lemma_find_entry_some_rec(m, m.entries, s);
}

proof fn lemma_find_entry_some_rec(m: TableModel, entries: Seq<(Seq<char>, u32, u32)>, s: Seq<char>)
    requires
        table_wf(m),
        exists|k: int| 0 <= k <= m.entries.len() && entries =~= m.entries.skip(k),
    ensures
        find_entry(entries, s) is Some ==> find_entry(entries, s)->Some_0.0 >= 1,
    decreases entries.len(),
{
    if entries.len() > 0 {
        let k = choose|k: int| 0 <= k <= m.entries.len() && entries =~= m.entries.skip(k);
        assert(entries[0] == m.entries[k]);
        assert(entry_wf(m, k));
        if entries[0].0 != s {
            assert(entries.drop_first() =~= m.entries.skip(k + 1));
            lemma_find_entry_some_rec(m, entries.drop_first(), s);
        }
    }
}

/// If no entry matches `s`, no position matches `s`.
pub proof fn lemma_find_entry_none_no_match(
    entries: Seq<(Seq<char>, u32, u32)>,
    s: Seq<char>,
    i: int,
)
    requires
        find_entry(entries, s) is None,
        0 <= i < entries.len(),
    ensures
        entries[i].0 != s,
    decreases entries.len(),
{
    if i > 0 {
        lemma_find_entry_none_no_match(entries.drop_first(), s, i - 1);
        assert(entries.drop_first()[i - 1] == entries[i]);
    }
}

/// Interning preserves well-formedness and grows the blob by at most the
/// string's byte weight.
pub proof fn lemma_spec_intern_wf(m: TableModel, s: Seq<char>)
    requires
        table_wf(m),
        m.data.len() + str_bytes(s).len() <= u32::MAX,
    ensures
        table_wf(spec_intern(m, s).0),
        m.data.len() <= spec_intern(m, s).0.data.len() <= m.data.len() + str_bytes(s).len(),
{
    if s.len() > 0 && find_entry(m.entries, s) is None {
        let m1 = spec_intern(m, s).0;
        let newe = (s, m.data.len() as u32, str_bytes(s).len() as u32);
        assert(m1.data == m.data + str_bytes(s));
        assert(m1.entries == m.entries.push(newe));
        assert forall|i: int| 0 <= i < m1.entries.len() implies entry_wf(m1, i) by {
            if i < m.entries.len() {
                assert(entry_wf(m, i));
                assert(m1.entries[i] == m.entries[i]);
                assert(m1.data.subrange(
                    m1.entries[i].1 as int,
                    m1.entries[i].1 + m1.entries[i].2,
                ) =~= m.data.subrange(m.entries[i].1 as int, m.entries[i].1 + m.entries[i].2));
            } else {
                assert(m1.entries[i] == newe);
                assert(m1.data.subrange(m.data.len() as int, m1.data.len() as int) =~= str_bytes(
                    s,
                ));
            }
        }
        assert forall|i: int, j: int| 0 <= i < j < m1.entries.len() implies m1.entries[i].0
            != m1.entries[j].0 by {
            if j == m.entries.len() {
                lemma_find_entry_none_no_match(m.entries, s, i);
            }
        }
    }
}

/// Interning is idempotent: a second interning of the same content returns
/// the same location and leaves the table unchanged; the empty string always
/// resolves to the sentinel and never grows the table.
pub proof fn lemma_intern_idempotent(m: TableModel, s: Seq<char>)
    requires
        table_wf(m),
    ensures
        spec_intern(spec_intern(m, s).0, s) == spec_intern(m, s),
        s.len() == 0 ==> spec_intern(m, s) == (m, (0u32, 0u32)),
    decreases m.entries.len(),
{
    if s.len() > 0 {
        let (m1, loc) = spec_intern(m, s);
        match find_entry(m.entries, s) {
            Some(_) => {},
            None => {
                lemma_find_entry_push_hit(m.entries, s, loc.0, loc.1);
            },
        }
    }
}

proof fn lemma_find_entry_push_hit(
    entries: Seq<(Seq<char>, u32, u32)>,
    s: Seq<char>,
    o: u32,
    l: u32,
)
    requires
        find_entry(entries, s) is None,
    ensures
        find_entry(entries.push((s, o, l)), s) == Some::<(u32, u32)>((o, l)),
    decreases entries.len(),
{
    if entries.len() == 0 {
        assert(entries.push((s, o, l))[0] == (s, o, l));
    } else {
        assert(entries.push((s, o, l))[0] == entries[0]);
        lemma_find_entry_push_hit(entries.drop_first(), s, o, l);
        assert(entries.push((s, o, l)).drop_first() =~= entries.drop_first().push((s, o, l)));
    }
}

} // verus!
