use vstd::prelude::*;

verus! {

/// The UTF-16 code units of one character: one unit inside the basic
/// multilingual plane, a surrogate pair above it.
pub open spec fn utf16_of_char(c: char) -> Seq<u16> {
    let v = c as u32 as int;
    if v < 0x10000 {
        seq![v as u16]
    } else {
        let u = v - 0x10000;
        seq![(0xD800 + u / 0x400) as u16, (0xDC00 + u % 0x400) as u16]
    }
}

/// The UTF-16 encoding of a character sequence.
pub open spec fn utf16_of(s: Seq<char>) -> Seq<u16>
    decreases s.len(),
{
    if s.len() == 0 {
        Seq::empty()
    } else {
        utf16_of(s.drop_last()) + utf16_of_char(s.last())
    }
}

/// A name in the host's native form: UTF-16 with a terminating zero unit.
pub open spec fn native_name(s: Seq<char>) -> Seq<u16> {
    utf16_of(s).push(0)
}

/// Relies on `str::encode_utf16`: the string's UTF-16 code units, in order.
#[verifier::external_body]
fn encode_utf16(s: &str) -> (r: Vec<u16>)
    ensures
        r@ == utf16_of(s@),
{
    s.encode_utf16().collect()
}

/// Encodes a name in the host's native form.
pub fn encode_native_name(name: &str) -> (r: Vec<u16>)
    ensures
        r@ == native_name(name@),
{
    let mut units = encode_utf16(name);
    units.push(0);
    units
}

/// An insert-only cache of names in their native form. Once cached, a name's
/// buffer stays in place for as long as the cache lives.
pub struct FileNameU16Cache {
    names: Vec<String>,
    encoded: Vec<Vec<u16>>,
}

impl FileNameU16Cache {
    /// The names held so far.
    pub closed spec fn cached(&self) -> Set<Seq<char>> {
        Set::new(|k: Seq<char>| exists|i: int| 0 <= i < self.names.len() && self.names[i]@ == k)
    }

    pub closed spec fn wf(&self) -> bool {
        &&& self.names.len() == self.encoded.len()
        &&& forall|i: int|
            0 <= i < self.names.len() ==> #[trigger] self.encoded[i]@ == native_name(
                self.names[i]@,
            )
    }

    pub fn new() -> (r: Self)
        ensures
            r.wf(),
            r.cached() == Set::<Seq<char>>::empty(),
    {
        let r = FileNameU16Cache { names: Vec::new(), encoded: Vec::new() };
        assert(r.cached() =~= Set::<Seq<char>>::empty());
        r
    }

    /// Returns the native form of `name`, encoding and storing it on first use.
    pub fn get_or_cache(&mut self, name: String) -> (r: &[u16])
        requires
            old(self).wf(),
        ensures
            final(self).wf(),
            r@ == native_name(name@),
            final(self).cached() == old(self).cached().insert(name@),
    {
        let mut i: usize = 0;
        while i < self.names.len()
            invariant
                self.wf(),
                0 <= i <= self.names.len(),
                forall|j: int| 0 <= j < i ==> self.names[j]@ != name@,
            decreases self.names.len() - i,
        {
            if self.names[i] == name {
                assert(self.cached() =~= self.cached().insert(name@));
                return self.encoded[i].as_slice();
            }
            i = i + 1;
        }
        let units = encode_native_name(name.as_str());
        let ghost old_cached = self.cached();
        self.names.push(name);
        self.encoded.push(units);
        let last = self.encoded.len() - 1;
        proof {
            assert forall|k: Seq<char>| #[trigger] self.cached().contains(k) <==> old_cached.insert(
                name@,
            ).contains(k) by {
                if old_cached.contains(k) {
                    let j = choose|j: int| 0 <= j < old(self).names.len() && old(self).names[j]@ == k;
                    assert(self.names[j]@ == k);
                }
                if self.cached().contains(k) {
                    let j = choose|j: int| 0 <= j < self.names.len() && self.names[j]@ == k;
                    if j < old(self).names.len() {
                        assert(old_cached.contains(k));
                    }
                }
                if k == name@ {
                    assert(self.names[last as int]@ == k);
                }
            }
            assert(self.cached() =~= old_cached.insert(name@));
        }
        self.encoded[last].as_slice()
    }
}

} // verus!
