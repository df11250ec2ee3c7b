//! The names that a cache gives to its parts: its own name, the name of the
//! slot and of the accessor of each variant, and the identifiers of
//! positional fields.

use vstd::prelude::*;
use vstd::string::*;

verus! {

/// What `heck` makes of a name when it converts it to snake case.
pub uninterp spec fn snake_case_of(name: Seq<char>) -> Seq<char>;

/// Calls `heck::ToSnakeCase::to_snake_case` on a string slice.
///
/// Trusted: the result is the conversion of the argument, and depends on
/// nothing else. `heck` splits the name into words at every character that is
/// not an ASCII letter or digit and at changes of case, puts the words into
/// lower case and joins them with `_`; none of that is restated here.
#[verifier::external_body]
fn to_snake_case(name: &str) -> (r: String)
    ensures
        r@ == snake_case_of(name@),
{
    heck::ToSnakeCase::to_snake_case(name)
}

/// The name of the accessor of a variant: the variant's name in snake case.
pub fn accessor_name(variant: &str) -> (r: String)
    ensures
        r@ == snake_case_of(variant@),
{
    to_snake_case(variant)
}

/// The name of the slot that belongs to an accessor.
pub open spec fn slot_name_of(accessor: Seq<char>) -> Seq<char> {
    "callback_"@ + accessor
}

/// The name of the slot that belongs to an accessor: `callback_`, then the
/// accessor's name.
pub fn slot_name(accessor: &str) -> (r: String)
    ensures
        r@ == slot_name_of(accessor@),
{
    String::from_str("callback_").concat(accessor)
}

/// The name of the cache of a message type.
pub open spec fn cache_name_of(message: Seq<char>) -> Seq<char> {
    message + "Callbacks"@
}

/// The name of the cache of a message type: the type's name, then
/// `Callbacks`.
pub fn cache_name(message: &str) -> (r: String)
    ensures
        r@ == cache_name_of(message@),
{
    String::from_str(message).concat("Callbacks")
}

/// The character of a decimal digit.
pub open spec fn digit_char(d: nat) -> char {
    if d == 0 {
        '0'
    } else if d == 1 {
        '1'
    } else if d == 2 {
        '2'
    } else if d == 3 {
        '3'
    } else if d == 4 {
        '4'
    } else if d == 5 {
        '5'
    } else if d == 6 {
        '6'
    } else if d == 7 {
        '7'
    } else if d == 8 {
        '8'
    } else {
        '9'
    }
}

/// A number in decimal, without leading zeros.
pub open spec fn decimal_digits(n: nat) -> Seq<char>
    decreases n,
{
    if n < 10 {
        seq![digit_char(n)]
    } else {
        decimal_digits(n / 10).push(digit_char(n % 10))
    }
}

fn digit(d: usize) -> (r: &'static str)
    requires
        d < 10,
    ensures
        r@ == seq![digit_char(d as nat)],
{
    proof {
        reveal_strlit("0");
        reveal_strlit("1");
        reveal_strlit("2");
        reveal_strlit("3");
        reveal_strlit("4");
        reveal_strlit("5");
        reveal_strlit("6");
        reveal_strlit("7");
        reveal_strlit("8");
        reveal_strlit("9");
    }
    let r = if d == 0 {
        "0"
    } else if d == 1 {
        "1"
    } else if d == 2 {
        "2"
    } else if d == 3 {
        "3"
    } else if d == 4 {
        "4"
    } else if d == 5 {
        "5"
    } else if d == 6 {
        "6"
    } else if d == 7 {
        "7"
    } else if d == 8 {
        "8"
    } else {
        "9"
    };
    assert(r@ =~= seq![digit_char(d as nat)]);
    r
}

/// A number written in decimal.
pub fn decimal(n: usize) -> (r: String)
    ensures
        r@ == decimal_digits(n as nat),
    decreases n,
{
    if n < 10 {
        String::from_str(digit(n))
    } else {
        let mut r = decimal(n / 10);
        r.append(digit(n % 10));
        assert(r@ =~= decimal_digits((n / 10) as nat).push(digit_char((n % 10) as nat)));
        r
    }
}

/// The identifier of the positional field at a position.
pub open spec fn positional_ident_of(position: nat) -> Seq<char> {
    "arg_"@ + decimal_digits(position)
}

/// The identifier of the positional field at a position: `arg_`, then the
/// position in decimal.
pub fn positional_ident(position: usize) -> (r: String)
    ensures
        r@ == positional_ident_of(position as nat),
{
    let digits = decimal(position);
    String::from_str("arg_").concat(digits.as_str())
}

} // verus!
