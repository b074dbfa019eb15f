use vstd::prelude::*;
use vstd::string::StringSliceAdditionalSpecFns;
use vstd::utf8::encode_utf8_decode_utf8;
use crate::hash::{from_ne_bytes, ne_bytes_of, wyhash_of, SIZE_OF_WYHASH, WYHASH_SEED};

verus! {

/// The bytes that the interner writes for one string: its cached hash in host
/// byte order, the string's own bytes, then a NUL byte.
pub open spec fn record_of(bytes: Seq<u8>) -> Seq<u8> {
    ne_bytes_of(wyhash_of(bytes, WYHASH_SEED)) + bytes + seq![0u8]
}

/// An interned string: a copyable handle to a record that stays at one address
/// for the rest of the process.
///
/// `record` is the whole record (hash, bytes, NUL) and `text` views the bytes
/// part of that same memory. Handles order by their text first.
#[derive(Clone, Copy, Debug, PartialOrd, Ord)]
pub struct IStr {
    text: &'static str,
    record: &'static [u8],
}

impl View for IStr {
    type V = Seq<char>;

    closed spec fn view(&self) -> Seq<char> {
        self.text@
    }
}

impl IStr {
    /// The string's UTF-8 bytes.
    pub closed spec fn bytes(&self) -> Seq<u8> {
        self.text.spec_bytes()
    }

    #[verifier::type_invariant]
    spec fn laid_out(&self) -> bool {
        &&& ne_bytes_of(wyhash_of(self.text.spec_bytes(), WYHASH_SEED)).len() == 8
        &&& self.record@ == record_of(self.text.spec_bytes())
    }

    /// The bytes of a string and the string's characters determine each other.
    pub proof fn lemma_bytes_view(&self)
        ensures
            self.bytes() == vstd::utf8::encode_utf8(self@),
    {
    }

    /// Builds a handle over a record already written out.
    pub(crate) fn from_record(text: &'static str, record: &'static [u8]) -> (r: IStr)
        requires
            ne_bytes_of(wyhash_of(text.spec_bytes(), WYHASH_SEED)).len() == 8,
            record@ == record_of(text.spec_bytes()),
        ensures
            r.bytes() == text.spec_bytes(),
            r@ == text@,
    {
        IStr { text, record }
    }

    /// The interned text.
    pub fn as_str(&self) -> (r: &'static str)
        ensures
            r@ == self@,
            r.spec_bytes() == self.bytes(),
    {
        self.text
    }

    /// Length of the string in bytes.
    pub fn len(&self) -> (r: usize)
        ensures
            r == self.bytes().len(),
    {
        proof {
            use_type_invariant(self);
        }
        self.record.len() - SIZE_OF_WYHASH - 1
    }

    /// The string's bytes followed by its NUL terminator, read in place.
    pub fn as_c_bytes(&self) -> (r: &'static [u8])
        ensures
            r@ == self.bytes().push(0u8),
    {
        proof {
            use_type_invariant(self);
        }
        let n = self.record.len();
        let r = vstd::slice::slice_subrange(self.record, SIZE_OF_WYHASH, n);
        proof {
            let b = self.text.spec_bytes();
            assert(record_of(b).subrange(8, n as int) =~= b.push(0u8));
        }
        r
    }

    /// The wyhash of the string, read from the eight bytes in front of it.
    pub fn wyhash(&self) -> (r: u64)
        ensures
            r == wyhash_of(self.bytes(), WYHASH_SEED),
    {
        proof {
            use_type_invariant(self);
        }
        let rec = self.record;
        let b: [u8; 8] = [rec[0], rec[1], rec[2], rec[3], rec[4], rec[5], rec[6], rec[7]];
        proof {
            let h = ne_bytes_of(wyhash_of(self.text.spec_bytes(), WYHASH_SEED));
            assert(record_of(self.text.spec_bytes()).subrange(0, 8) =~= h);
            assert(b@ =~= h);
        }
        from_ne_bytes(b)
    }

    /// Whether this handle's text is `s`, byte for byte.
    pub fn has_text(&self, s: &str) -> (r: bool)
        ensures
            r == (self@ == s@),
    {
        let a = self.text.as_bytes();
        let b = s.as_bytes();
        proof {
            encode_utf8_decode_utf8(self.text@);
            encode_utf8_decode_utf8(s@);
        }
        if a.len() != b.len() {
            return false;
        }
        let mut i: usize = 0;
        while i < a.len()
            invariant
                a@ == self.bytes(),
                b@ == s.spec_bytes(),
                a@.len() == b@.len(),
                0 <= i <= a@.len(),
                forall|j: int| 0 <= j < i ==> a@[j] == b@[j],
            decreases a@.len() - i,
        {
            if a[i] != b[i] {
                assert(a@ != b@);
                return false;
            }
            i = i + 1;
        }
        assert(a@ =~= b@);
        true
    }
}

/// Relies on `core::ptr::eq`: two slices at the same address with the same
/// length hold the same bytes.
#[verifier::external_body]
fn same_address(a: &[u8], b: &[u8]) -> (r: bool)
    ensures
        r ==> a@ == b@,
{
    core::ptr::eq(a, b)
}

impl IStr {
    /// Whether two handles are the same record: one address comparison, which
    /// the interner makes equivalent to comparing the strings.
    pub fn same(&self, other: &IStr) -> (r: bool)
        ensures
            r ==> self@ == other@,
    {
        proof {
            use_type_invariant(self);
            use_type_invariant(other);
        }
        let r = same_address(self.record, other.record);
        proof {
            if r {
                let a = self.text.spec_bytes();
                let b = other.text.spec_bytes();
                assert(record_of(a).subrange(8, a.len() + 8int) =~= a);
                assert(record_of(b).subrange(8, b.len() + 8int) =~= b);
                encode_utf8_decode_utf8(self.text@);
                encode_utf8_decode_utf8(other.text@);
            }
        }
        r
    }
}

impl PartialEq for IStr {
    fn eq(&self, other: &IStr) -> (r: bool) {
        self.same(other)
    }
}

/// `==` compares addresses, which contracts cannot see: they compare handles
/// through `same` and through the interner's view instead.
impl vstd::std_specs::cmp::PartialEqSpecImpl for IStr {
    open spec fn obeys_eq_spec() -> bool {
        false
    }

    open spec fn eq_spec(&self, other: &IStr) -> bool {
        self@ == other@
    }
}

impl Eq for IStr {
}

impl core::borrow::Borrow<str> for IStr {
    fn borrow(&self) -> &str {
        self.text
    }
}

impl core::hash::Hash for IStr {
    /// Relies on `str::hash`: a handle hashes as its text does, so that a map
    /// keyed by handles can be searched with a plain `&str`.
    #[verifier::external_body]
    fn hash<H: core::hash::Hasher>(&self, state: &mut H) {
        self.text.hash(state)
    }
}

} // verus!
