use vstd::prelude::*;
use vstd::string::StringSliceAdditionalSpecFns;
use vstd::utf8::{encode_utf8_decode_utf8, encode_utf8_valid_utf8, valid_utf8};
use crate::hash::{hash_bytes, ne_bytes_of, to_ne_bytes, wyhash_of, SIZE_OF_WYHASH, WYHASH_SEED};
use crate::istr::{record_of, IStr};
use crate::page::{Page, MAX_CAPACITY};
use crate::table::{table_find, table_insert, table_items, table_len, table_new, table_to_vec, Table};

verus! {

/// Longest string, in bytes, that the interner takes.
pub const MAX_STR_LEN: usize = MAX_CAPACITY - SIZE_OF_WYHASH - 1;

/// What a lookup of `s` finds among the handles `m`.
pub open spec fn lookup(m: Map<Seq<char>, IStr>, s: Seq<char>) -> Option<IStr> {
    if m.contains_key(s) {
        Some(m[s])
    } else {
        None
    }
}

/// Interning `s` where the handles are `before` returns `r` and leaves the
/// handles `after`: the handle already held for `s`, or a new one added.
pub open spec fn interns(
    before: Map<Seq<char>, IStr>,
    s: Seq<char>,
    r: IStr,
    after: Map<Seq<char>, IStr>,
) -> bool {
    &&& r@ == s
    &&& before.contains_key(s) ==> r == before[s]
    &&& after == before.insert(s, r)
}

/// Relies on `std::str::from_utf8`: valid UTF-8 is viewed as a string of the
/// same bytes.
#[verifier::external_body]
fn utf8_view(b: &'static [u8]) -> (r: &'static str)
    requires
        valid_utf8(b@),
    ensures
        r.spec_bytes() == b@,
{
    std::str::from_utf8(b).unwrap()
}

/// The string interner: every distinct string has exactly one handle.
///
/// Lookups read the `front` table. A new string is written into the arena and
/// added to `back`, which then becomes `front`; the handle added last waits in
/// `pending` and reaches the other table on the next insertion.
pub struct Interner {
    front: Table,
    back: Table,
    pending: Option<IStr>,
    /// The unused end of the last page.
    tail: &'static mut [u8],
    /// Capacity of the last page, zero before the first one.
    tail_capacity: usize,
    handles: Ghost<Map<Seq<char>, IStr>>,
}

impl View for Interner {
    type V = Map<Seq<char>, IStr>;

    closed spec fn view(&self) -> Map<Seq<char>, IStr> {
        self.handles@
    }
}

impl Interner {
    /// The handles are those of the map, each under its own text; the back
    /// table lacks only the pending handle, which the front table holds.
    pub closed spec fn wf(&self) -> bool {
        let m = self.handles@;
        &&& forall|k: Seq<char>| #[trigger] m.contains_key(k) ==> m[k]@ == k
        &&& forall|v: IStr| #[trigger]
            table_items(self.front).contains(v) <==> (m.contains_key(v@) && m[v@] == v)
        &&& forall|v: IStr| #[trigger]
            table_items(self.back).contains(v) <==> (table_items(self.front).contains(v)
                && self.pending != Some(v))
        &&& self.pending matches Some(p) ==> table_items(self.front).contains(p)
        &&& forall|v: IStr| #[trigger] table_items(self.front).count(v) <= 1
        &&& forall|v: IStr| #[trigger] table_items(self.back).count(v) <= 1
        &&& self.tail_capacity <= MAX_CAPACITY + 1024
    }

    /// An interner that holds no string.
    pub fn new() -> (r: Interner)
        ensures
            r.wf(),
            r@ == Map::<Seq<char>, IStr>::empty(),
    {
        let empty: Vec<u8> = Vec::new();
        Interner {
            front: table_new(),
            back: table_new(),
            pending: None,
            tail: Page::from_vec(empty).mem,
            tail_capacity: 0,
            handles: Ghost(Map::empty()),
        }
    }

    /// Looks `s` up in the front table.
    pub fn get_interned(&self, s: &str) -> (r: Option<IStr>)
        requires
            self.wf(),
        ensures
            r == lookup(self@, s@),
    {
        let hash = hash_bytes(s.as_bytes());
        let (found, _) = self.get_interned_and_map_len(s, hash);
        found
    }

    /// Looks `s`, whose wyhash is `hash`, up in the front table, and also
    /// gives the front table's length.
    fn get_interned_and_map_len(&self, s: &str, hash: u64) -> (r: (Option<IStr>, usize))
        requires
            self.wf(),
            hash == wyhash_of(s.spec_bytes(), WYHASH_SEED),
        ensures
            r.0 == lookup(self@, s@),
            r.1 == table_items(self.front).len(),
    {
        let len = table_len(&self.front);
        let found = table_find(&self.front, hash, s);
        proof {
            if self@.contains_key(s@) {
                let v = self@[s@];
                v.lemma_bytes_view();
                assert(table_items(self.front).contains(v));
            }
        }
        (found, len)
    }

    /// The handle of `s`, made and recorded where `s` has none yet.
    pub fn intern(&mut self, s: &str) -> (r: IStr)
        requires
            old(self).wf(),
            s.spec_bytes().len() <= MAX_STR_LEN,
        ensures
            final(self).wf(),
            interns(old(self)@, s@, r, final(self)@),
    {
        let hash = hash_bytes(s.as_bytes());
        let (found, front_len) = self.get_interned_and_map_len(s, hash);
        if let Some(v) = found {
            proof {
                assert(self@.insert(s@, v) =~= self@);
            }
            return v;
        }
        assert(!self@.contains_key(s@));
        // s has no handle yet; look again where another insertion may have
        // left one since the front table was read
        let mut some_pending: usize = 0;
        if let Some(p) = self.pending {
            some_pending = 1;
            if p.wyhash() == hash && p.has_text(s) {
                proof {
                    assert(table_items(self.front).contains(p));
                }
                return p;
            }
        }
        let back_len = table_len(&self.back);
        if back_len as u128 + some_pending as u128 > front_len as u128 {
            if let Some(v) = table_find(&self.back, hash, s) {
                proof {
                    assert(table_items(self.front).contains(v));
                }
                return v;
            }
        }
        let ghost before = *self;
        // the handle added last also goes into the table it is missing from
        if let Some(p) = self.pending {
            proof {
                p.lemma_bytes_view();
                assert(self.handles@.contains_key(p@));
            }
            let ph = p.wyhash();
            assert(!table_items(self.back).contains(p));
            table_insert(&mut self.back, ph, p);
            self.pending = None;
        }
        proof {
            assert forall|v: IStr| #[trigger] table_items(self.back).contains(v) <==> table_items(
                self.front,
            ).contains(v) by {
                if table_items(before.back).contains(v) {
                }
            }
        }
        let h = self.write_record(hash, s);
        proof {
            h.lemma_bytes_view();
            assert(!table_items(self.front).contains(h));
        }
        let ghost mid = *self;
        table_insert(&mut self.back, hash, h);
        self.pending = Some(h);
        std::mem::swap(&mut self.front, &mut self.back);
        self.handles = Ghost(self.handles@.insert(s@, h));
        proof {
            let m = mid.handles@;
            let m2 = self.handles@;
            assert forall|v: IStr| #[trigger] table_items(self.front).contains(v) <==> (
            m2.contains_key(v@) && m2[v@] == v) by {
                assert(table_items(mid.back).contains(v) <==> table_items(mid.front).contains(v));
                assert(table_items(mid.front).contains(v) <==> (m.contains_key(v@) && m[v@]
                    == v));
                if v == h {
                } else if v@ == s@ {
                    assert(!table_items(mid.front).contains(v));
                } else {
                    assert(table_items(self.front).contains(v) <==> table_items(
                        mid.back,
                    ).contains(v));
                }
            }
            assert forall|v: IStr| #[trigger] table_items(self.back).contains(v) <==> (
            table_items(self.front).contains(v) && self.pending != Some(v)) by {
                if v == h {
                } else {
                    assert(table_items(self.front).contains(v) <==> table_items(
                        mid.back,
                    ).contains(v));
                }
            }
            assert(table_items(mid.back).count(h) == 0) by {
                assert(table_items(mid.back).contains(h) <==> table_items(mid.front).contains(h));
            }
            assert forall|v: IStr| #[trigger] table_items(self.front).count(v) <= 1 by {
                assert(table_items(mid.back).count(v) <= 1);
            }
            assert forall|k: Seq<char>| #[trigger] m2.contains_key(k) implies m2[k]@ == k by {
                if k != s@ {
                    assert(m.contains_key(k));
                }
            }
        }
        h
    }

    /// Interns `s` where it is at most `MAX_STR_LEN` bytes long; a longer
    /// string is refused and nothing changes.
    pub fn try_intern(&mut self, s: &str) -> (r: Option<IStr>)
        requires
            old(self).wf(),
        ensures
            final(self).wf(),
            r is None <==> s.spec_bytes().len() > MAX_STR_LEN,
            r matches Some(h) ==> interns(old(self)@, s@, h, final(self)@),
            r is None ==> final(self)@ == old(self)@,
    {
        if s.as_bytes().len() > MAX_STR_LEN {
            None
        } else {
            Some(self.intern(s))
        }
    }

    /// Every handle held, in no particular order.
    pub fn collect_interned_strings(&self) -> (r: Vec<IStr>)
        requires
            self.wf(),
        ensures
            forall|v: IStr| #[trigger]
                r@.to_multiset().count(v) == if lookup(self@, v@) == Some(v) {
                    1nat
                } else {
                    0nat
                },
    {
        let r = table_to_vec(&self.front);
        proof {
            assert forall|v: IStr| #[trigger]
                r@.to_multiset().count(v) == if lookup(self@, v@) == Some(v) {
                    1nat
                } else {
                    0nat
                } by {
                assert(table_items(self.front).count(v) <= 1);
                assert(table_items(self.front).contains(v) <==> lookup(self@, v@) == Some(v));
            }
        }
        r
    }

    /// Writes the record of `s` at the start of the tail, first starting a
    /// new page where the tail is too short.
    fn write_record(&mut self, hash: u64, s: &str) -> (r: IStr)
        requires
            old(self).tail_capacity <= MAX_CAPACITY + 1024,
            s.spec_bytes().len() <= MAX_STR_LEN,
            hash == wyhash_of(s.spec_bytes(), WYHASH_SEED),
        ensures
            final(self).tail_capacity <= MAX_CAPACITY + 1024,
            final(self).handles == old(self).handles,
            final(self).front == old(self).front,
            final(self).back == old(self).back,
            final(self).pending == old(self).pending,
            r@ == s@,
            r.bytes() == s.spec_bytes(),
    {
        let bytes = s.as_bytes();
        let n = bytes.len();
        let need = SIZE_OF_WYHASH + n + 1;
        if self.tail.len() < need {
            let page = if self.tail_capacity <= MAX_CAPACITY / 2 {
                Page::following(self.tail_capacity, need)
            } else {
                Page::with_min_capacity(need)
            };
            self.tail_capacity = page.mem.len();
            self.tail = page.mem;
        }
        let mut rest: &'static mut [u8] = Page::from_vec(Vec::new()).mem;
        std::mem::swap(&mut rest, &mut self.tail);
        let (rec, rest) = rest.split_at_mut(need);
        self.tail = rest;
        let hb: [u8; 8] = to_ne_bytes(hash);
        let mut i: usize = 0;
        while i < SIZE_OF_WYHASH
            invariant
                rec@.len() == need,
                need == n + 9,
                0 <= i <= 8,
                forall|j: int| 0 <= j < i ==> rec@[j] == hb@[j],
            decreases 8 - i,
        {
            rec[i] = hb[i];
            i = i + 1;
        }
        let mut k: usize = 0;
        while k < n
            invariant
                rec@.len() == need,
                need == n + 9,
                n == bytes@.len(),
                0 <= k <= n,
                forall|j: int| 0 <= j < 8 ==> rec@[j] == hb@[j],
                forall|j: int| 0 <= j < k ==> rec@[8 + j] == bytes@[j],
            decreases n - k,
        {
            rec[SIZE_OF_WYHASH + k] = bytes[k];
            k = k + 1;
        }
        rec[SIZE_OF_WYHASH + n] = 0;
        let record: &'static [u8] = rec;
        proof {
            assert(record@ =~= record_of(bytes@));
            assert(record@.subrange(8, 8 + n as int) =~= bytes@);
            encode_utf8_valid_utf8(s@);
        }
        let body = vstd::slice::slice_subrange(record, SIZE_OF_WYHASH, SIZE_OF_WYHASH + n);
        let text = utf8_view(body);
        proof {
            encode_utf8_decode_utf8(text@);
            encode_utf8_decode_utf8(s@);
        }
        IStr::from_record(text, record)
    }
}

/// Intern `s`: return the handle it already has, or make one.
pub fn intern(interner: &mut Interner, s: &str) -> (r: IStr)
    requires
        old(interner).wf(),
        s.spec_bytes().len() <= MAX_STR_LEN,
    ensures
        final(interner).wf(),
        interns(old(interner)@, s@, r, final(interner)@),
{
    interner.intern(s)
}

/// The handle of `s`, where `s` has been interned; nothing is added.
pub fn get_interned(interner: &Interner, s: &str) -> (r: Option<IStr>)
    requires
        interner.wf(),
    ensures
        r == lookup(interner@, s@),
{
    interner.get_interned(s)
}

/// Every handle made so far, in no particular order.
pub fn collect_interned_strings(interner: &Interner) -> (r: Vec<IStr>)
    requires
        interner.wf(),
    ensures
        forall|v: IStr| #[trigger]
            r@.to_multiset().count(v) == if lookup(interner@, v@) == Some(v) {
                1nat
            } else {
                0nat
            },
{
    interner.collect_interned_strings()
}

impl IStr {
    /// Intern `s`: return the handle it already has, or make one.
    pub fn new(interner: &mut Interner, s: &str) -> (r: IStr)
        requires
            old(interner).wf(),
            s.spec_bytes().len() <= MAX_STR_LEN,
        ensures
            final(interner).wf(),
            interns(old(interner)@, s@, r, final(interner)@),
    {
        interner.intern(s)
    }
}

} // verus!
