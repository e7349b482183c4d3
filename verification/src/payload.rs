//! The wire payload: one newline-terminated JSON object per processed frame,
//! holding the frame geometry, the advisory output channel order, and the
//! encoded bytes printed as a literal array of unsigned byte values. The
//! exact character sequence is pinned down by `payload_spec`.

use vstd::prelude::*;
use vstd::string::StringExecFns;

verus! {

/// The single decimal digit `d` as a character sequence.
pub open spec fn digit_seq(d: int) -> Seq<char> {
    if d == 0 {
        "0"@
    } else if d == 1 {
        "1"@
    } else if d == 2 {
        "2"@
    } else if d == 3 {
        "3"@
    } else if d == 4 {
        "4"@
    } else if d == 5 {
        "5"@
    } else if d == 6 {
        "6"@
    } else if d == 7 {
        "7"@
    } else if d == 8 {
        "8"@
    } else {
        "9"@
    }
}

/// The decimal rendering of a non-negative integer, most significant digit
/// first, with no leading zeros (a single `0` for zero itself).
pub open spec fn dec_spec(n: int) -> Seq<char>
    decreases n,
{
    if n < 10 {
        digit_seq(n)
    } else {
        dec_spec(n / 10) + digit_seq(n % 10)
    }
}

/// The bytes rendered between the brackets of the array: decimal values
/// separated by `", "`.
pub open spec fn items_spec(bytes: Seq<u8>) -> Seq<char>
    decreases bytes.len(),
{
    if bytes.len() == 0 {
        Seq::empty()
    } else if bytes.len() == 1 {
        dec_spec(bytes[0] as int)
    } else {
        items_spec(bytes.drop_last()) + ", "@ + dec_spec(bytes.last() as int)
    }
}

/// The byte array rendered as a literal list, `[]` when empty.
pub open spec fn byte_list_spec(bytes: Seq<u8>) -> Seq<char> {
    "["@ + items_spec(bytes) + "]"@
}

/// The full payload text for one processed frame.
pub open spec fn payload_spec(w: u32, h: u32, bytes: Seq<u8>) -> Seq<char> {
    "{"@ + "\"width\": "@ + dec_spec(w as int) + ","@ + "\"height\": "@ + dec_spec(h as int)
        + ","@ + "\"encoding-order\": \"RGBA\","@ + "\"image\": "@ + byte_list_spec(bytes) + "}"@
}

/// Appends the single decimal digit `d`.
fn push_digit(out: &mut String, d: u32)
    requires
        d < 10,
    ensures
        final(out)@ == old(out)@ + digit_seq(d as int),
{
    if d == 0 {
        out.append("0");
    } else if d == 1 {
        out.append("1");
    } else if d == 2 {
        out.append("2");
    } else if d == 3 {
        out.append("3");
    } else if d == 4 {
        out.append("4");
    } else if d == 5 {
        out.append("5");
    } else if d == 6 {
        out.append("6");
    } else if d == 7 {
        out.append("7");
    } else if d == 8 {
        out.append("8");
    } else {
        out.append("9");
    }
}

/// Appends the decimal rendering of `n`.
fn push_decimal(out: &mut String, n: u32)
    ensures
        final(out)@ == old(out)@ + dec_spec(n as int),
    decreases n,
{
    if n >= 10 {
        push_decimal(out, n / 10);
        push_digit(out, n % 10);
        proof {
            assert(old(out)@ + dec_spec(n as int / 10) + digit_seq(n as int % 10) =~= old(
                out,
            )@ + dec_spec(n as int));
        }
    } else {
        push_digit(out, n);
    }
}

/// Renders the byte buffer as a literal array of decimal values.
fn byte_list_string(bytes: &Vec<u8>) -> (s: String)
    ensures
        s@ == byte_list_spec(bytes@),
{
    let mut s = String::new();
    s.append("[");
    proof {
        assert(s@ =~= "["@ + items_spec(bytes@.take(0)));
    }
    let n = bytes.len();
    let mut i: usize = 0;
    while i < n
        invariant
            n == bytes@.len(),
            i <= n,
            s@ == "["@ + items_spec(bytes@.take(i as int)),
        decreases n - i,
    {
        if i > 0 {
            s.append(", ");
        }
        push_decimal(&mut s, bytes[i] as u32);
        i += 1;
        proof {
            let t = bytes@.take(i as int);
            assert(t.last() == bytes@[i - 1]);
            if i > 1 {
                assert(t.drop_last() =~= bytes@.take(i - 1));
                assert(s@ =~= "["@ + items_spec(t));
            } else {
                assert(bytes@.take(0) =~= Seq::<u8>::empty());
                assert(t =~= seq![bytes@[0]]);
                assert(s@ =~= "["@ + items_spec(t));
            }
        }
    }
    proof {
        assert(bytes@.take(n as int) =~= bytes@);
    }
    s.append("]");
    s
}

/// Serializes one processed frame: geometry, the advisory `"RGBA"` output
/// order, and the encoded bytes, in the exact text of `payload_spec`.
pub fn build_tcp_payload(w: u32, h: u32, frame_buffer: Vec<u8>) -> (json: String)
    ensures
        json@ == payload_spec(w, h, frame_buffer@),
{
    let mut json = String::new();
    json.append("{");
    json.append("\"width\": ");
    push_decimal(&mut json, w);
    json.append(",");
    json.append("\"height\": ");
    push_decimal(&mut json, h);
    json.append(",");
    json.append("\"encoding-order\": \"RGBA\",");
    json.append("\"image\": ");
    let list = byte_list_string(&frame_buffer);
    json.append(list.as_str());
    json.append("}");
    proof {
        assert(json@ =~= payload_spec(w, h, frame_buffer@));
    }
    json
}

} // verus!
