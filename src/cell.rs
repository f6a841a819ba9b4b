//! Canonical text of a single spreadsheet cell.
use vstd::prelude::*;

verus! {

/// The error values a spreadsheet formula can produce.
#[derive(Clone, Copy, Debug, PartialEq, Eq)]
pub enum CellErrorKind {
    Div0,
    NA,
    Name,
    Null,
    Num,
    Ref,
    Value,
    GettingData,
}

/// One cell as read from a worksheet.
///
/// A floating-point cell carries the text that the runtime's default
/// float formatting produced for it: floating point stays outside the
/// library, and the cell's text is all the library ever needs of it.
#[derive(Clone, Debug, PartialEq)]
pub enum Cell {
    Text(String),
    Float(String),
    Int(i64),
    Bool(bool),
    Error(CellErrorKind),
    Empty,
}

/// The decimal digit for `d` (taken modulo ten).
pub open spec fn digit_char(d: nat) -> char {
    let m = d % 10;
    if m == 0 { '0' }
    else if m == 1 { '1' }
    else if m == 2 { '2' }
    else if m == 3 { '3' }
    else if m == 4 { '4' }
    else if m == 5 { '5' }
    else if m == 6 { '6' }
    else if m == 7 { '7' }
    else if m == 8 { '8' }
    else { '9' }
}

/// Base-ten digits of `n`, most significant first, without leading zeros.
pub open spec fn decimal_digits(n: nat) -> Seq<char>
    decreases n,
{
    if n < 10 {
        seq![digit_char(n)]
    } else {
        decimal_digits(n / 10).push(digit_char(n % 10))
    }
}

/// Base-ten text of `i`: a minus sign only when negative.
pub open spec fn int_text(i: int) -> Seq<char> {
    if i < 0 {
        seq!['-'] + decimal_digits((-i) as nat)
    } else {
        decimal_digits(i as nat)
    }
}

/// The name of an error value, as its variant is spelled.
pub open spec fn error_text(e: CellErrorKind) -> Seq<char> {
    match e {
        CellErrorKind::Div0 => "Div0"@,
        CellErrorKind::NA => "NA"@,
        CellErrorKind::Name => "Name"@,
        CellErrorKind::Null => "Null"@,
        CellErrorKind::Num => "Num"@,
        CellErrorKind::Ref => "Ref"@,
        CellErrorKind::Value => "Value"@,
        CellErrorKind::GettingData => "GettingData"@,
    }
}

/// The canonical text of a cell.
pub open spec fn cell_text(c: Cell) -> Seq<char> {
    match c {
        Cell::Text(s) => s@,
        Cell::Float(s) => s@,
        Cell::Int(i) => int_text(i as int),
        Cell::Bool(b) => if b { "true"@ } else { "false"@ },
        Cell::Error(e) => error_text(e),
        Cell::Empty => Seq::empty(),
    }
}

fn digit_str(d: u64) -> (r: &'static str)
    requires
        d < 10,
    ensures
        r@ == seq![digit_char(d as nat)],
{
    proof {
        reveal_strlit("0");
        reveal_strlit("1");
        reveal_strlit("2");
        reveal_strlit("3");
        reveal_strlit("4");
        reveal_strlit("5");
        reveal_strlit("6");
        reveal_strlit("7");
        reveal_strlit("8");
        reveal_strlit("9");
    }
    let r = if d == 0 { "0" }
    else if d == 1 { "1" }
    else if d == 2 { "2" }
    else if d == 3 { "3" }
    else if d == 4 { "4" }
    else if d == 5 { "5" }
    else if d == 6 { "6" }
    else if d == 7 { "7" }
    else if d == 8 { "8" }
    else { "9" };
    assert(r@ =~= seq![digit_char(d as nat)]);
    r
}

/// Appends the decimal digits of `n` to `s`.
fn push_decimal(s: &mut String, n: u64)
    ensures
        final(s)@ == old(s)@ + decimal_digits(n as nat),
    decreases n,
{
    if n >= 10 {
        push_decimal(s, n / 10);
    }
    s.append(digit_str(n % 10));
    assert(final(s)@ =~= old(s)@ + decimal_digits(n as nat));
}

/// Base-ten text of an integer.
pub fn int_to_text(i: i64) -> (r: String)
    ensures
        r@ == int_text(i as int),
{
    let mut s = String::new();
    if i < 0 {
        proof {
            reveal_strlit("-");
        }
        s.append("-");
        let magnitude: u64 = (0 - (i as i128)) as u64;
        assert(magnitude as int == -(i as int));
        push_decimal(&mut s, magnitude);
        assert(s@ =~= int_text(i as int));
    } else {
        push_decimal(&mut s, i as u64);
    }
    s
}

fn error_to_text(e: CellErrorKind) -> (r: String)
    ensures
        r@ == error_text(e),
{
    match e {
        CellErrorKind::Div0 => String::from_str("Div0"),
        CellErrorKind::NA => String::from_str("NA"),
        CellErrorKind::Name => String::from_str("Name"),
        CellErrorKind::Null => String::from_str("Null"),
        CellErrorKind::Num => String::from_str("Num"),
        CellErrorKind::Ref => String::from_str("Ref"),
        CellErrorKind::Value => String::from_str("Value"),
        CellErrorKind::GettingData => String::from_str("GettingData"),
    }
}

/// The canonical text of a cell; defined for every cell.
pub fn cell_to_text(c: &Cell) -> (r: String)
    ensures
        r@ == cell_text(*c),
{
    match c {
        Cell::Text(s) => s.clone(),
        Cell::Float(s) => s.clone(),
        Cell::Int(i) => int_to_text(*i),
        Cell::Bool(b) => if *b { String::from_str("true") } else { String::from_str("false") },
        Cell::Error(e) => error_to_text(*e),
        Cell::Empty => String::new(),
    }
}

/// Stringifying is a function of the cell alone: equal cells give equal
/// text, however many times and wherever it is computed.
pub proof fn lemma_stringify_deterministic(a: Cell, b: Cell, ra: Seq<char>, rb: Seq<char>)
    requires
        a == b,
        ra == cell_text(a),
        rb == cell_text(b),
    ensures
        ra == rb,
{
}

} // verus!
