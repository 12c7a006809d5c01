use vstd::prelude::*;

verus! {

/// The lowercase hexadecimal digit for a value below sixteen.
pub open spec fn hex_digit(v: int) -> char {
    if v < 10 {
        (v + 48) as char
    } else {
        (v + 87) as char
    }
}

/// The lowercase hexadecimal text of a byte string: two digits per byte, high
/// nibble first.
pub open spec fn hex_of(b: Seq<u8>) -> Seq<char> {
    Seq::new(
        2 * b.len(),
        |i: int|
            if i % 2 == 0 {
                hex_digit(b[i / 2] as int / 16)
            } else {
                hex_digit(b[i / 2] as int % 16)
            },
    )
}

/// Relies on `String::push`: appends one character at the end.
#[verifier::external_body]
pub(crate) fn push_char(s: &mut String, c: char)
    ensures
        final(s)@ == old(s)@.push(c),
{
    s.push(c)
}

/// Lowercase hexadecimal rendering of a byte slice, produced one character at
/// a time.
#[derive(Clone, Copy)]
pub struct Hex<'a> {
    bytes: &'a [u8],
    pos: usize,
    second: bool,
}

impl<'a> Hex<'a> {
    /// Position in `hex_of(bytes)` of the next character handed out.
    pub closed spec fn index(&self) -> int {
        2 * self.pos + if self.second { 1int } else { 0int }
    }

    pub closed spec fn wf(&self) -> bool {
        &&& self.pos <= self.bytes@.len()
        &&& self.pos == self.bytes@.len() ==> !self.second
    }

    /// The bytes being rendered.
    pub closed spec fn source(&self) -> Seq<u8> {
        self.bytes@
    }

    /// The characters that are still to come.
    pub closed spec fn rest(&self) -> Seq<char> {
        hex_of(self.bytes@).skip(self.index())
    }

    /// A rendering of `bytes` from its first character.
    pub fn new(bytes: &'a [u8]) -> (r: Hex<'a>)
        ensures
            r.wf(),
            r.source() == bytes@,
            r.rest() == hex_of(bytes@),
    {
        let r = Hex { bytes, pos: 0, second: false };
        assert(r.rest() =~= hex_of(bytes@));
        r
    }

    fn nibble_char(v: u8) -> (c: char)
        requires
            v < 16,
        ensures
            c == hex_digit(v as int),
    {
        if v < 10 {
            (v + 48) as char
        } else {
            (v + 87) as char
        }
    }

    /// Hands out the next character, or `None` once every byte is rendered.
    pub fn next(&mut self) -> (r: Option<char>)
        requires
            old(self).wf(),
        ensures
            final(self).wf(),
            final(self).source() == old(self).source(),
            old(self).rest().len() > 0 ==> r == Some(old(self).rest()[0]) && final(self).rest()
                == old(self).rest().skip(1),
            old(self).rest().len() == 0 ==> r is None && final(self).rest() == old(self).rest(),
    {
        if self.pos < self.bytes.len() {
            let byte = self.bytes[self.pos];
            let second = self.second;
            let c = if !second {
                Self::nibble_char(byte / 16)
            } else {
                Self::nibble_char(byte % 16)
            };
            proof {
                let i = old(self).index();
                assert(i / 2 == self.pos as int);
                assert(hex_of(self.bytes@)[i] == c);
            }
            if second {
                self.pos = self.pos + 1;
            }
            self.second = !second;
            proof {
                lemma_skip_one_more(old(self).bytes@, old(self).index());
            }
            Some(c)
        } else {
            assert(old(self).rest().len() == 0);
            None
        }
    }

    /// The whole rendering that is still to come, as text.
    pub fn to_string(&self) -> (r: String)
        requires
            self.wf(),
        ensures
            r@ == self.rest(),
    {
        let mut it = *self;
        let mut out = String::new();
        assert(it.rest() == self.rest()) by {
            assert(it.bytes@ == self.bytes@ && it.pos == self.pos && it.second == self.second);
        }
        while it.pos < it.bytes.len()
            invariant
                it.wf(),
                it.source() == self.source(),
                out@ + it.rest() == self.rest(),
            decreases 2 * (it.bytes@.len() - it.pos) - if it.second { 1int } else { 0int },
        {
            let ghost before = it.rest();
            match it.next() {
                Some(c) => {
                    push_char(&mut out, c);
                    assert(out@ + it.rest() =~= self.rest()) by {
                        assert(before =~= seq![c] + before.skip(1));
                    }
                },
                None => {},
            }
        }
        assert(it.rest().len() == 0);
        assert(out@ =~= self.rest());
        out
    }
}

proof fn lemma_skip_one_more(b: Seq<u8>, i: int)
    requires
        0 <= i < hex_of(b).len(),
    ensures
        hex_of(b).skip(i).skip(1) == hex_of(b).skip(i + 1),
{
    assert(hex_of(b).skip(i).skip(1) =~= hex_of(b).skip(i + 1));
}

/// Types whose contents render as lowercase hexadecimal.
pub trait ToHex {
    spec fn hex_source(&self) -> Seq<u8>;

    fn to_hex(&self) -> (r: Hex<'_>)
        ensures
            r.wf(),
            r.rest() == hex_of(self.hex_source()),
    ;
}

impl ToHex for [u8] {
    open spec fn hex_source(&self) -> Seq<u8> {
        self@
    }

    fn to_hex(&self) -> (r: Hex<'_>) {
        Hex::new(self)
    }
}

} // verus!
