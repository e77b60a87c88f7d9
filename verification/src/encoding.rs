//! Base64 encoding of artifact bytes, as the results endpoint hands
//! them out.
//!
//! The standard alphabet with `=` padding: each group of three bytes
//! becomes four characters; a final group of one or two bytes is
//! padded to four.

use vstd::prelude::*;

verus! {

use vstd::string::StrSliceExecFns;

/// Relies on `String::push`: appends exactly the given character to
/// the end of the string.
pub assume_specification[ String::push ](s: &mut String, ch: char)
    ensures
        final(s)@ == old(s)@.push(ch),
;

/// The standard base64 alphabet, as a sequence of 64 characters.
pub open spec fn base64_alphabet() -> Seq<char> {
    "ABCDEFGHIJKLMNOPQRSTUVWXYZabcdefghijklmnopqrstuvwxyz0123456789+/"@
}

/// The four characters of one full three-byte group.
pub open spec fn encode3(a: u8, b: u8, c: u8) -> Seq<char> {
    seq![
        base64_alphabet()[a as int / 4],
        base64_alphabet()[(a as int % 4) * 16 + b as int / 16],
        base64_alphabet()[(b as int % 16) * 4 + c as int / 64],
        base64_alphabet()[c as int % 64],
    ]
}

/// The four characters of a final two-byte group: three characters
/// and one `=`.
pub open spec fn encode2(a: u8, b: u8) -> Seq<char> {
    seq![
        base64_alphabet()[a as int / 4],
        base64_alphabet()[(a as int % 4) * 16 + b as int / 16],
        base64_alphabet()[(b as int % 16) * 4],
        '=',
    ]
}

/// The four characters of a final one-byte group: two characters and
/// two `=`.
pub open spec fn encode1(a: u8) -> Seq<char> {
    seq![base64_alphabet()[a as int / 4], base64_alphabet()[(a as int % 4) * 16], '=', '=']
}

/// The base64 encoding of a byte sequence: full groups from the
/// front, then the padded tail.
pub open spec fn base64_spec(bytes: Seq<u8>) -> Seq<char>
    decreases bytes.len(),
{
    if bytes.len() == 0 {
        Seq::empty()
    } else if bytes.len() == 1 {
        encode1(bytes[0])
    } else if bytes.len() == 2 {
        encode2(bytes[0], bytes[1])
    } else {
        encode3(bytes[0], bytes[1], bytes[2]) + base64_spec(bytes.skip(3))
    }
}

/// One character of the alphabet, by index.
fn alphabet_char(i: u8) -> (r: char)
    requires
        i < 64,
    ensures
        r == base64_alphabet()[i as int],
{
    let table = "ABCDEFGHIJKLMNOPQRSTUVWXYZabcdefghijklmnopqrstuvwxyz0123456789+/";
    proof {
        reveal_strlit("ABCDEFGHIJKLMNOPQRSTUVWXYZabcdefghijklmnopqrstuvwxyz0123456789+/");
    }
    table.get_char(i as usize)
}

/// The base64 encoding of a byte buffer, exactly as [`base64_spec`]
/// says.
pub fn base64_of(bytes: &Vec<u8>) -> (r: String)
    ensures
        r@ == base64_spec(bytes@),
{
    let mut r = String::new();
    let mut i: usize = 0;
    proof {
        assert(bytes@.skip(0) =~= bytes@);
    }
    while bytes.len() - i >= 3
        invariant
            i <= bytes@.len(),
            r@ + base64_spec(bytes@.skip(i as int)) == base64_spec(bytes@),
        decreases bytes@.len() - i,
    {
        let a = bytes[i];
        let b = bytes[i + 1];
        let c = bytes[i + 2];
        r.push(alphabet_char(a / 4));
        r.push(alphabet_char((a % 4) * 16 + b / 16));
        r.push(alphabet_char((b % 16) * 4 + c / 64));
        r.push(alphabet_char(c % 64));
        proof {
            assert(bytes@.skip(i as int).skip(3) =~= bytes@.skip(i as int + 3));
            assert(bytes@.skip(i as int)[0] == bytes@[i as int]);
            assert(bytes@.skip(i as int)[1] == bytes@[i as int + 1]);
            assert(bytes@.skip(i as int)[2] == bytes@[i as int + 2]);
        }
        i = i + 3;
    }
    if bytes.len() - i == 1 {
        let a = bytes[i];
        r.push(alphabet_char(a / 4));
        r.push(alphabet_char((a % 4) * 16));
        r.push('=');
        r.push('=');
        proof {
            assert(bytes@.skip(i as int)[0] == bytes@[i as int]);
        }
    } else if bytes.len() - i == 2 {
        let a = bytes[i];
        let b = bytes[i + 1];
        r.push(alphabet_char(a / 4));
        r.push(alphabet_char((a % 4) * 16 + b / 16));
        r.push(alphabet_char((b % 16) * 4));
        r.push('=');
        proof {
            assert(bytes@.skip(i as int)[0] == bytes@[i as int]);
            assert(bytes@.skip(i as int)[1] == bytes@[i as int + 1]);
        }
    } else {
        proof {
            assert(bytes@.skip(i as int) =~= Seq::<u8>::empty());
        }
    }
    r
}

} // verus!
