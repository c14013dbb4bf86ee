//! JSON wire encoding of the record types, written as explicit mapping
//! functions from record to text.
//!
//! The wire form of every payload is pinned down by spec functions over
//! character sequences: decimal numerals, escaped string tokens, one
//! object per record, arrays of objects, the health payload and the
//! not-found message.  Each executable encoder returns exactly the text
//! its spec function describes.  A product's price reaches the encoder as
//! already-rendered numeric text, since rendering it is the caller's
//! floating-point concern, not this layer's.

use vstd::prelude::*;

use crate::models::{Product, ProductView, User, UserView};
use crate::store::{products_view, users_view};
use vstd::string::StrSliceExecFns;
use vstd::string::StringExecFns;

verus! {

/// The decimal digit character for a value below ten.
pub open spec fn dec_digit(n: int) -> char {
    if n == 0 {
        '0'
    } else if n == 1 {
        '1'
    } else if n == 2 {
        '2'
    } else if n == 3 {
        '3'
    } else if n == 4 {
        '4'
    } else if n == 5 {
        '5'
    } else if n == 6 {
        '6'
    } else if n == 7 {
        '7'
    } else if n == 8 {
        '8'
    } else {
        '9'
    }
}

/// The hexadecimal digit character for a value below sixteen, lower case.
pub open spec fn hex_digit(n: int) -> char {
    if n < 10 {
        dec_digit(n)
    } else if n == 10 {
        'a'
    } else if n == 11 {
        'b'
    } else if n == 12 {
        'c'
    } else if n == 13 {
        'd'
    } else if n == 14 {
        'e'
    } else {
        'f'
    }
}

/// Decimal numeral of a non-negative value, most significant digit
/// first, without leading zeros.
pub open spec fn dec_str(n: int) -> Seq<char>
    decreases n,
{
    if n < 10 {
        seq![dec_digit(n)]
    } else {
        dec_str(n / 10).push(dec_digit(n % 10))
    }
}

/// Decimal rendering of an integer, with a leading minus when negative.
pub open spec fn int_str(n: int) -> Seq<char> {
    if n < 0 {
        seq!['-'] + dec_str(-n)
    } else {
        dec_str(n)
    }
}

/// JSON escape of one character: quote and backslash get a backslash,
/// the common control characters their short forms, the remaining
/// control characters the four-digit form, every other character stands
/// for itself.
pub open spec fn esc_char(c: char) -> Seq<char> {
    if c == '"' {
        seq!['\\', '"']
    } else if c == '\\' {
        seq!['\\', '\\']
    } else if c == '\n' {
        seq!['\\', 'n']
    } else if c == '\r' {
        seq!['\\', 'r']
    } else if c == '\t' {
        seq!['\\', 't']
    } else if (c as int) < 32 {
        seq!['\\', 'u', '0', '0', hex_digit(c as int / 16), hex_digit(c as int % 16)]
    } else {
        seq![c]
    }
}

/// JSON escape of a whole string body.
pub open spec fn esc_str(s: Seq<char>) -> Seq<char>
    decreases s.len(),
{
    if s.len() == 0 {
        Seq::empty()
    } else {
        esc_str(s.drop_last()) + esc_char(s.last())
    }
}

/// A JSON string token: the escaped body between quotes.
pub open spec fn json_string(s: Seq<char>) -> Seq<char> {
    seq!['"'] + esc_str(s) + seq!['"']
}

/// The wire object for one user record.
pub open spec fn user_json(u: UserView) -> Seq<char> {
    "{\"id\":"@ + int_str(u.id) + ",\"name\":"@ + json_string(u.name) + ",\"email\":"@
        + json_string(u.email) + "}"@
}

/// The comma-separated object list for a sequence of user records.
pub open spec fn users_json_items(s: Seq<UserView>) -> Seq<char>
    decreases s.len(),
{
    if s.len() == 0 {
        Seq::empty()
    } else if s.len() == 1 {
        user_json(s[0])
    } else {
        users_json_items(s.drop_last()) + seq![','] + user_json(s.last())
    }
}

/// The wire array for a sequence of user records.
pub open spec fn users_json(s: Seq<UserView>) -> Seq<char> {
    seq!['['] + users_json_items(s) + seq![']']
}

/// The wire object for one product record, around the given rendered
/// price text.
pub open spec fn product_json(p: ProductView, price: Seq<char>) -> Seq<char> {
    "{\"id\":"@ + int_str(p.id) + ",\"name\":"@ + json_string(p.name) + ",\"description\":"@
        + json_string(p.description) + ",\"price\":"@ + price + "}"@
}

/// The views of a vector of rendered price texts.
pub open spec fn prices_view(s: Seq<String>) -> Seq<Seq<char>> {
    Seq::new(s.len(), |i: int| s[i]@)
}

/// The comma-separated object list for a sequence of product records and
/// their rendered price texts, matched by position.
pub open spec fn products_json_items(s: Seq<ProductView>, prices: Seq<Seq<char>>) -> Seq<char>
    recommends
        s.len() == prices.len(),
    decreases s.len(),
{
    if s.len() == 0 {
        Seq::empty()
    } else if s.len() == 1 {
        product_json(s[0], prices[0])
    } else {
        products_json_items(s.drop_last(), prices.drop_last()) + seq![','] + product_json(
            s.last(),
            prices.last(),
        )
    }
}

/// The wire array for a sequence of product records.
pub open spec fn products_json(s: Seq<ProductView>, prices: Seq<Seq<char>>) -> Seq<char> {
    seq!['['] + products_json_items(s, prices) + seq![']']
}

/// The health payload: a fixed ok status, the service name, a timestamp.
pub open spec fn health_json(service: Seq<char>, timestamp: Seq<char>) -> Seq<char> {
    "{\"status\":\"ok\",\"service\":"@ + json_string(service) + ",\"timestamp\":"@ + json_string(
        timestamp,
    ) + "}"@
}

/// The plain-text body reported when an id is absent.
pub open spec fn not_found_message(entity: Seq<char>, id: int) -> Seq<char> {
    entity + " with id "@ + int_str(id) + " not found"@
}

/// Relies on String::push: it appends exactly the given character.
#[verifier::external_body]
fn push_char(out: &mut String, c: char)
    ensures
        final(out)@ == old(out)@.push(c),
{
    out.push(c);
}

/// The one-character string for a decimal digit value.
fn dec_digit_str(n: u32) -> (r: &'static str)
    requires
        n < 10,
    ensures
        r@ == seq![dec_digit(n as int)],
{
    if n == 0 {
        proof {
            reveal_strlit("0");
            assert("0"@ =~= seq![dec_digit(n as int)]);
        }
        "0"
    } else if n == 1 {
        proof {
            reveal_strlit("1");
            assert("1"@ =~= seq![dec_digit(n as int)]);
        }
        "1"
    } else if n == 2 {
        proof {
            reveal_strlit("2");
            assert("2"@ =~= seq![dec_digit(n as int)]);
        }
        "2"
    } else if n == 3 {
        proof {
            reveal_strlit("3");
            assert("3"@ =~= seq![dec_digit(n as int)]);
        }
        "3"
    } else if n == 4 {
        proof {
            reveal_strlit("4");
            assert("4"@ =~= seq![dec_digit(n as int)]);
        }
        "4"
    } else if n == 5 {
        proof {
            reveal_strlit("5");
            assert("5"@ =~= seq![dec_digit(n as int)]);
        }
        "5"
    } else if n == 6 {
        proof {
            reveal_strlit("6");
            assert("6"@ =~= seq![dec_digit(n as int)]);
        }
        "6"
    } else if n == 7 {
        proof {
            reveal_strlit("7");
            assert("7"@ =~= seq![dec_digit(n as int)]);
        }
        "7"
    } else if n == 8 {
        proof {
            reveal_strlit("8");
            assert("8"@ =~= seq![dec_digit(n as int)]);
        }
        "8"
    } else {
        proof {
            reveal_strlit("9");
            assert("9"@ =~= seq![dec_digit(n as int)]);
        }
        "9"
    }
}

/// The one-character string for a hexadecimal digit value, lower case.
fn hex_digit_str(n: u32) -> (r: &'static str)
    requires
        n < 16,
    ensures
        r@ == seq![hex_digit(n as int)],
{
    if n < 10 {
        dec_digit_str(n)
    } else if n == 10 {
        proof {
            reveal_strlit("a");
            assert("a"@ =~= seq![hex_digit(n as int)]);
        }
        "a"
    } else if n == 11 {
        proof {
            reveal_strlit("b");
            assert("b"@ =~= seq![hex_digit(n as int)]);
        }
        "b"
    } else if n == 12 {
        proof {
            reveal_strlit("c");
            assert("c"@ =~= seq![hex_digit(n as int)]);
        }
        "c"
    } else if n == 13 {
        proof {
            reveal_strlit("d");
            assert("d"@ =~= seq![hex_digit(n as int)]);
        }
        "d"
    } else if n == 14 {
        proof {
            reveal_strlit("e");
            assert("e"@ =~= seq![hex_digit(n as int)]);
        }
        "e"
    } else {
        proof {
            reveal_strlit("f");
            assert("f"@ =~= seq![hex_digit(n as int)]);
        }
        "f"
    }
}

/// Appends the decimal numeral of the value.
fn push_u32_dec(out: &mut String, n: u32)
    ensures
        final(out)@ == old(out)@ + dec_str(n as int),
    decreases n,
{
    if n < 10 {
        out.append(dec_digit_str(n));
        proof {
            assert(old(out)@ + seq![dec_digit(n as int)] =~= old(out)@ + dec_str(n as int));
        }
    } else {
        push_u32_dec(out, n / 10);
        out.append(dec_digit_str(n % 10));
        proof {
            assert(old(out)@ + dec_str((n / 10) as int) + seq![dec_digit((n % 10) as int)] =~= old(
                out,
            )@ + dec_str(n as int));
        }
    }
}

/// Appends the decimal numeral of the id, minus sign included.
fn push_i32_dec(out: &mut String, n: i32)
    ensures
        final(out)@ == old(out)@ + int_str(n as int),
{
    if n >= 0 {
        push_u32_dec(out, n as u32);
    } else {
        out.append("-");
        let wide: i64 = n as i64;
        let mag: u32 = (-wide) as u32;
        push_u32_dec(out, mag);
        proof {
            reveal_strlit("-");
            assert(old(out)@ + "-"@ + dec_str(mag as int) =~= old(out)@ + int_str(n as int));
        }
    }
}

/// Appends the JSON escape of one character.
fn push_esc_char(out: &mut String, c: char)
    ensures
        final(out)@ == old(out)@ + esc_char(c),
{
    if c == '"' {
        out.append("\\\"");
        proof {
            reveal_strlit("\\\"");
            assert(old(out)@ + "\\\""@ =~= old(out)@ + esc_char(c));
        }
    } else if c == '\\' {
        out.append("\\\\");
        proof {
            reveal_strlit("\\\\");
            assert(old(out)@ + "\\\\"@ =~= old(out)@ + esc_char(c));
        }
    } else if c == '\n' {
        out.append("\\n");
        proof {
            reveal_strlit("\\n");
            assert(old(out)@ + "\\n"@ =~= old(out)@ + esc_char(c));
        }
    } else if c == '\r' {
        out.append("\\r");
        proof {
            reveal_strlit("\\r");
            assert(old(out)@ + "\\r"@ =~= old(out)@ + esc_char(c));
        }
    } else if c == '\t' {
        out.append("\\t");
        proof {
            reveal_strlit("\\t");
            assert(old(out)@ + "\\t"@ =~= old(out)@ + esc_char(c));
        }
    } else if (c as u32) < 32 {
        out.append("\\u00");
        let n: u32 = c as u32;
        out.append(hex_digit_str(n / 16));
        out.append(hex_digit_str(n % 16));
        proof {
            reveal_strlit("\\u00");
            assert(old(out)@ + "\\u00"@ + seq![hex_digit((n / 16) as int)] + seq![
                hex_digit((n % 16) as int),
            ] =~= old(out)@ + esc_char(c));
        }
    } else {
        push_char(out, c);
        proof {
            assert(old(out)@.push(c) =~= old(out)@ + esc_char(c));
        }
    }
}

/// Appends the escaped body of the string.
fn push_escaped(out: &mut String, s: &str)
    ensures
        final(out)@ == old(out)@ + esc_str(s@),
{
    let len: usize = s.unicode_len();
    let mut i: usize = 0;
    while i < len
        invariant
            i <= len,
            len == s@.len(),
            out@ == old(out)@ + esc_str(s@.subrange(0, i as int)),
        decreases len - i,
    {
        let c = s.get_char(i);
        push_esc_char(out, c);
        proof {
            assert(s@.subrange(0, i as int + 1).drop_last() =~= s@.subrange(0, i as int));
            assert(s@.subrange(0, i as int + 1).last() == s@[i as int]);
            assert(out@ =~= old(out)@ + esc_str(s@.subrange(0, i as int + 1)));
        }
        i += 1;
    }
    proof {
        assert(s@.subrange(0, len as int) =~= s@);
    }
}

/// Appends a JSON string token for the given text.
fn push_json_string(out: &mut String, s: &str)
    ensures
        final(out)@ == old(out)@ + json_string(s@),
{
    out.append("\"");
    push_escaped(out, s);
    out.append("\"");
    proof {
        reveal_strlit("\"");
        assert(old(out)@ + "\""@ + esc_str(s@) + "\""@ =~= old(out)@ + json_string(s@));
    }
}

/// Encodes one user record as its wire object.
pub fn encode_user(u: &User) -> (r: String)
    ensures
        r@ == user_json(u@),
{
    let mut out = String::new();
    out.append("{\"id\":");
    push_i32_dec(&mut out, u.id);
    out.append(",\"name\":");
    push_json_string(&mut out, u.name.as_str());
    out.append(",\"email\":");
    push_json_string(&mut out, u.email.as_str());
    out.append("}");
    proof {
        assert(out@ =~= user_json(u@));
    }
    out
}

/// Encodes a listing of user records as a wire array, in order.
pub fn encode_users(rows: &Vec<User>) -> (r: String)
    ensures
        r@ == users_json(users_view(rows@)),
{
    let mut out = String::new();
    out.append("[");
    let mut i: usize = 0;
    while i < rows.len()
        invariant
            i <= rows@.len(),
            out@ == "["@ + users_json_items(users_view(rows@).subrange(0, i as int)),
        decreases rows@.len() - i,
    {
        if i > 0 {
            out.append(",");
        }
        let piece = encode_user(&rows[i]);
        out.append(piece.as_str());
        proof {
            reveal_strlit(",");
            let t = users_view(rows@);
            assert(t.subrange(0, i as int + 1).drop_last() =~= t.subrange(0, i as int));
            assert(t.subrange(0, i as int + 1).last() == t[i as int]);
            if i == 0 {
                assert(users_json_items(t.subrange(0, 1)) == user_json(t[0]));
            }
            assert(out@ =~= "["@ + users_json_items(t.subrange(0, i as int + 1)));
        }
        i += 1;
    }
    out.append("]");
    proof {
        reveal_strlit("[");
        reveal_strlit("]");
        assert(users_view(rows@).subrange(0, rows@.len() as int) =~= users_view(rows@));
        assert(out@ =~= users_json(users_view(rows@)));
    }
    out
}

/// Encodes one product record as its wire object, around the rendered
/// price text supplied by the caller.
pub fn encode_product(p: &Product, price: &str) -> (r: String)
    ensures
        r@ == product_json(p@, price@),
{
    let mut out = String::new();
    out.append("{\"id\":");
    push_i32_dec(&mut out, p.id);
    out.append(",\"name\":");
    push_json_string(&mut out, p.name.as_str());
    out.append(",\"description\":");
    push_json_string(&mut out, p.description.as_str());
    out.append(",\"price\":");
    out.append(price);
    out.append("}");
    proof {
        assert(out@ =~= product_json(p@, price@));
    }
    out
}

/// Encodes a listing of product records as a wire array, in order, with
/// the rendered price texts matched to the rows by position.
pub fn encode_products(rows: &Vec<Product>, prices: &Vec<String>) -> (r: String)
    requires
        rows@.len() == prices@.len(),
    ensures
        r@ == products_json(products_view(rows@), prices_view(prices@)),
{
    let mut out = String::new();
    out.append("[");
    let mut i: usize = 0;
    while i < rows.len()
        invariant
            i <= rows@.len(),
            rows@.len() == prices@.len(),
            out@ == "["@ + products_json_items(
                products_view(rows@).subrange(0, i as int),
                prices_view(prices@).subrange(0, i as int),
            ),
        decreases rows@.len() - i,
    {
        if i > 0 {
            out.append(",");
        }
        let piece = encode_product(&rows[i], prices[i].as_str());
        out.append(piece.as_str());
        proof {
            reveal_strlit(",");
            let t = products_view(rows@);
            let q = prices_view(prices@);
            assert(t.subrange(0, i as int + 1).drop_last() =~= t.subrange(0, i as int));
            assert(q.subrange(0, i as int + 1).drop_last() =~= q.subrange(0, i as int));
            assert(t.subrange(0, i as int + 1).last() == t[i as int]);
            assert(q.subrange(0, i as int + 1).last() == q[i as int]);
            if i == 0 {
                assert(products_json_items(t.subrange(0, 1), q.subrange(0, 1)) == product_json(
                    t[0],
                    q[0],
                ));
            }
            assert(out@ =~= "["@ + products_json_items(
                t.subrange(0, i as int + 1),
                q.subrange(0, i as int + 1),
            ));
        }
        i += 1;
    }
    out.append("]");
    proof {
        reveal_strlit("[");
        reveal_strlit("]");
        assert(products_view(rows@).subrange(0, rows@.len() as int) =~= products_view(rows@));
        assert(prices_view(prices@).subrange(0, prices@.len() as int) =~= prices_view(prices@));
        assert(out@ =~= products_json(products_view(rows@), prices_view(prices@)));
    }
    out
}

/// Builds the health payload around the given service name and
/// timestamp; the status field is always the fixed ok marker.
pub fn health_body(service: &str, timestamp: &str) -> (r: String)
    ensures
        r@ == health_json(service@, timestamp@),
{
    let mut out = String::new();
    out.append("{\"status\":\"ok\",\"service\":");
    push_json_string(&mut out, service);
    out.append(",\"timestamp\":");
    push_json_string(&mut out, timestamp);
    out.append("}");
    proof {
        assert(out@ =~= health_json(service@, timestamp@));
    }
    out
}

/// Builds the plain-text body reported when an id is absent.
pub fn not_found_body(entity: &str, id: i32) -> (r: String)
    ensures
        r@ == not_found_message(entity@, id as int),
{
    let mut out = String::new();
    out.append(entity);
    out.append(" with id ");
    push_i32_dec(&mut out, id);
    out.append(" not found");
    proof {
        assert(out@ =~= not_found_message(entity@, id as int));
    }
    out
}

} // verus!
