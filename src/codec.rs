//! Conversion between the text of a CSV cell and the value held by a column,
//! for each logical column type.
use vstd::prelude::*;

verus! {

/// Value that stands for a missing or unparseable `MOJO_INT32` cell.
pub const MOJO_INT32_NAN: i32 = 2147483647;

/// Value that stands for a missing or unparseable `MOJO_INT64` cell.
pub const MOJO_INT64_NAN: i64 = 9223372036854775807;

/// Logical type of a column, in the order of the engine's numeric codes.
#[allow(non_camel_case_types)]
#[derive(Clone, Copy, Debug, PartialEq, Eq, Structural)]
pub enum MOJO_DataType {
    MOJO_UNKNOWN,
    /// byte-represented boolean
    MOJO_BOOL,
    /// 4 bytes signed integer
    MOJO_INT32,
    /// 8 bytes signed integer
    MOJO_INT64,
    /// 4 bytes floating point
    MOJO_FLOAT,
    /// 8 bytes floating point
    MOJO_DOUBLE,
    /// engine-managed string, empty when missing
    MOJO_STRING,
}

/// The engine's numeric code of each type.
pub open spec fn type_code(t: MOJO_DataType) -> int {
    match t {
        MOJO_DataType::MOJO_UNKNOWN => 0,
        MOJO_DataType::MOJO_BOOL => 1,
        MOJO_DataType::MOJO_INT32 => 2,
        MOJO_DataType::MOJO_INT64 => 3,
        MOJO_DataType::MOJO_FLOAT => 4,
        MOJO_DataType::MOJO_DOUBLE => 5,
        MOJO_DataType::MOJO_STRING => 6,
    }
}

impl MOJO_DataType {
    /// The type with the engine's numeric code `code`; `MOJO_UNKNOWN` for a code
    /// that no type has.
    pub fn from_code(code: i32) -> (r: MOJO_DataType)
        ensures
            1 <= code <= 6 ==> type_code(r) == code,
            !(1 <= code <= 6) ==> r == MOJO_DataType::MOJO_UNKNOWN,
    {
        match code {
            1 => MOJO_DataType::MOJO_BOOL,
            2 => MOJO_DataType::MOJO_INT32,
            3 => MOJO_DataType::MOJO_INT64,
            4 => MOJO_DataType::MOJO_FLOAT,
            5 => MOJO_DataType::MOJO_DOUBLE,
            6 => MOJO_DataType::MOJO_STRING,
            _ => MOJO_DataType::MOJO_UNKNOWN,
        }
    }

    /// Whether values of this type can be moved through a column.
    pub open spec fn spec_is_supported(self) -> bool {
        self != MOJO_DataType::MOJO_UNKNOWN
    }

    #[verifier::when_used_as_spec(spec_is_supported)]
    pub fn is_supported(self) -> (r: bool)
        ensures
            r == self.spec_is_supported(),
    {
        !matches!(self, MOJO_DataType::MOJO_UNKNOWN)
    }
}

/// One value of a column.
///
/// Floating-point values are held in their text form: they are turned into
/// IEEE numbers only where the frame meets the engine's memory.
#[derive(Debug)]
pub enum Cell {
    Bool(bool),
    Int32(i32),
    Int64(i64),
    Float32Text(String),
    Float64Text(String),
    Str(String),
}

/// The mathematical value of a [`Cell`].
pub ghost enum CellView {
    Bool(bool),
    Int32(i32),
    Int64(i64),
    Float32Text(Seq<char>),
    Float64Text(Seq<char>),
    Str(Seq<char>),
}

impl View for Cell {
    type V = CellView;

    open spec fn view(&self) -> CellView {
        match self {
            Cell::Bool(b) => CellView::Bool(*b),
            Cell::Int32(v) => CellView::Int32(*v),
            Cell::Int64(v) => CellView::Int64(*v),
            Cell::Float32Text(s) => CellView::Float32Text(s@),
            Cell::Float64Text(s) => CellView::Float64Text(s@),
            Cell::Str(s) => CellView::Str(s@),
        }
    }
}

impl Cell {
    /// A copy of this value.
    pub fn duplicate(&self) -> (r: Cell)
        ensures
            r@ == self@,
    {
        match self {
            Cell::Bool(b) => Cell::Bool(*b),
            Cell::Int32(v) => Cell::Int32(*v),
            Cell::Int64(v) => Cell::Int64(*v),
            Cell::Float32Text(s) => Cell::Float32Text(s.clone()),
            Cell::Float64Text(s) => Cell::Float64Text(s.clone()),
            Cell::Str(s) => Cell::Str(s.clone()),
        }
    }
}

/// The type that a cell value belongs to.
pub open spec fn cell_type(c: CellView) -> MOJO_DataType {
    match c {
        CellView::Bool(_) => MOJO_DataType::MOJO_BOOL,
        CellView::Int32(_) => MOJO_DataType::MOJO_INT32,
        CellView::Int64(_) => MOJO_DataType::MOJO_INT64,
        CellView::Float32Text(_) => MOJO_DataType::MOJO_FLOAT,
        CellView::Float64Text(_) => MOJO_DataType::MOJO_DOUBLE,
        CellView::Str(_) => MOJO_DataType::MOJO_STRING,
    }
}

/// The value of a fresh column of type `t`: false, zero, or empty text.
pub open spec fn zero_cell(t: MOJO_DataType) -> CellView {
    match t {
        MOJO_DataType::MOJO_BOOL => CellView::Bool(false),
        MOJO_DataType::MOJO_INT32 => CellView::Int32(0),
        MOJO_DataType::MOJO_INT64 => CellView::Int64(0),
        MOJO_DataType::MOJO_FLOAT => CellView::Float32Text(seq!['0']),
        MOJO_DataType::MOJO_DOUBLE => CellView::Float64Text(seq!['0']),
        _ => CellView::Str(Seq::empty()),
    }
}

// ---------------------------------------------------------------- text of numbers

pub open spec fn is_digit(c: char) -> bool {
    '0' <= c && c <= '9'
}

pub open spec fn all_digits(s: Seq<char>) -> bool {
    forall|i: int| 0 <= i < s.len() ==> is_digit(#[trigger] s[i])
}

pub open spec fn digit_value(c: char) -> int {
    c as int - '0' as int
}

/// The number that a run of decimal digits denotes.
pub open spec fn digits_value(s: Seq<char>) -> int
    decreases s.len(),
{
    if s.len() == 0 {
        0
    } else {
        digits_value(s.drop_last()) * 10 + digit_value(s.last())
    }
}

pub open spec fn has_sign(s: Seq<char>) -> bool {
    s.len() > 0 && (s[0] == '+' || s[0] == '-')
}

/// An optional `+` or `-`, then one or more ASCII digits, and nothing else.
pub open spec fn is_decimal_text(s: Seq<char>) -> bool {
    if has_sign(s) {
        s.len() > 1 && all_digits(s.drop_first())
    } else {
        s.len() > 0 && all_digits(s)
    }
}

/// The number that decimal text denotes.
pub open spec fn decimal_value(s: Seq<char>) -> int {
    if has_sign(s) {
        if s[0] == '-' {
            -digits_value(s.drop_first())
        } else {
            digits_value(s.drop_first())
        }
    } else {
        digits_value(s)
    }
}

/// What parsing `s` as an `i32` gives: the number it denotes, if it is decimal
/// text and the number fits.
pub open spec fn parsed_i32(s: Seq<char>) -> Option<i32> {
    if is_decimal_text(s) && i32::MIN <= decimal_value(s) <= i32::MAX {
        Some(decimal_value(s) as i32)
    } else {
        None
    }
}

/// What parsing `s` as an `i64` gives.
pub open spec fn parsed_i64(s: Seq<char>) -> Option<i64> {
    if is_decimal_text(s) && i64::MIN <= decimal_value(s) <= i64::MAX {
        Some(decimal_value(s) as i64)
    } else {
        None
    }
}

pub open spec fn digit_char(d: int) -> char {
    ('0' as int + d) as char
}

/// Decimal digits of a natural number, without leading zeros.
pub open spec fn nat_text(n: nat) -> Seq<char>
    decreases n,
{
    if n < 10 {
        seq![digit_char(n as int)]
    } else {
        nat_text(n / 10).push(digit_char(n as int % 10))
    }
}

/// Decimal text of an integer: a `-` before the digits of a negative number.
pub open spec fn int_text(v: int) -> Seq<char> {
    if v < 0 {
        seq!['-'] + nat_text((-v) as nat)
    } else {
        nat_text(v as nat)
    }
}

// ---------------------------------------------------------------- booleans

pub open spec fn true_literals() -> Seq<Seq<char>> {
    seq![
        seq!['t', 'r', 'u', 'e'],
        seq!['T', 'r', 'u', 'e'],
        seq!['T', 'R', 'U', 'E'],
        seq!['1'],
        seq!['1', '.', '0'],
    ]
}

pub open spec fn false_literals() -> Seq<Seq<char>> {
    seq![
        seq!['f', 'a', 'l', 's', 'e'],
        seq!['F', 'a', 'l', 's', 'e'],
        seq!['F', 'A', 'L', 'S', 'E'],
        seq!['0'],
        seq!['0', '.', '0'],
    ]
}

pub open spec fn bool_text(b: bool) -> Seq<char> {
    if b {
        seq!['t', 'r', 'u', 'e']
    } else {
        seq!['f', 'a', 'l', 's', 'e']
    }
}

// ---------------------------------------------------------------- the codec

/// The value that decoding the text `s` into a column of type `t` gives.
pub open spec fn decode_spec(t: MOJO_DataType, s: Seq<char>) -> CellView {
    match t {
        MOJO_DataType::MOJO_BOOL => CellView::Bool(true_literals().contains(s)),
        MOJO_DataType::MOJO_INT32 => CellView::Int32(
            match parsed_i32(s) {
                Some(v) => v,
                None => MOJO_INT32_NAN,
            },
        ),
        MOJO_DataType::MOJO_INT64 => CellView::Int64(
            match parsed_i64(s) {
                Some(v) => v,
                None => MOJO_INT64_NAN,
            },
        ),
        MOJO_DataType::MOJO_FLOAT => CellView::Float32Text(s),
        MOJO_DataType::MOJO_DOUBLE => CellView::Float64Text(s),
        _ => CellView::Str(s),
    }
}

/// The text that encoding a value gives.
pub open spec fn encode_spec(c: CellView) -> Seq<char> {
    match c {
        CellView::Bool(b) => bool_text(b),
        CellView::Int32(v) => int_text(v as int),
        CellView::Int64(v) => int_text(v as int),
        CellView::Float32Text(s) => s,
        CellView::Float64Text(s) => s,
        CellView::Str(s) => s,
    }
}


/// Whether two texts hold the same characters.
fn same_text(a: &str, b: &str) -> (r: bool)
    ensures
        r == (a@ == b@),
{
    let n = a.unicode_len();
    if n != b.unicode_len() {
        return false;
    }
    let mut i: usize = 0;
    while i < n
        invariant
            n == a@.len(),
            n == b@.len(),
            0 <= i <= n,
            forall|j: int| 0 <= j < i ==> a@[j] == b@[j],
        decreases n - i,
    {
        if a.get_char(i) != b.get_char(i) {
            return false;
        }
        i = i + 1;
    }
    assert(a@ =~= b@);
    true
}

/// Decodes a boolean cell: true for exactly the texts `true`, `True`, `TRUE`,
/// `1` and `1.0`; false for anything else (the false literals included).
pub fn mojo2_parse_bool(s: &str) -> (r: bool)
    ensures
        r == true_literals().contains(s@),
        CellView::Bool(r) == decode_spec(MOJO_DataType::MOJO_BOOL, s@),
{
    proof {
        reveal_strlit("true");
        reveal_strlit("True");
        reveal_strlit("TRUE");
        reveal_strlit("1");
        reveal_strlit("1.0");
    }
    let ghost lits = true_literals();
    assert("true"@ =~= lits[0]);
    assert("True"@ =~= lits[1]);
    assert("TRUE"@ =~= lits[2]);
    assert("1"@ =~= lits[3]);
    assert("1.0"@ =~= lits[4]);
    let r = same_text(s, "true") || same_text(s, "True") || same_text(s, "TRUE")
        || same_text(s, "1") || same_text(s, "1.0");
    proof {
        if r {
            assert(lits.contains(s@));
        } else {
            assert forall|i: int| 0 <= i < lits.len() implies lits[i] != s@ by {}
        }
    }
    r
}


/// Relies on `<i32 as FromStr>::from_str`: std accepts an optional `+` or `-`
/// followed by ASCII digits and nothing else, and fails when the number does
/// not fit in an `i32`.
#[verifier::external_body]
fn parse_i32(s: &str) -> (r: Option<i32>)
    ensures
        r == parsed_i32(s@),
{
    s.parse::<i32>().ok()
}

/// Relies on `<i64 as FromStr>::from_str`, which reads text as `i32`'s does.
#[verifier::external_body]
fn parse_i64(s: &str) -> (r: Option<i64>)
    ensures
        r == parsed_i64(s@),
{
    s.parse::<i64>().ok()
}

/// Relies on `<i32 as Display>` through `ToString`: the decimal digits without
/// leading zeros, with `-` before a negative number.
#[verifier::external_body]
fn i32_text(v: i32) -> (r: String)
    ensures
        r@ == int_text(v as int),
{
    v.to_string()
}

/// Relies on `<i64 as Display>` through `ToString`, which writes as `i32`'s does.
#[verifier::external_body]
fn i64_text(v: i64) -> (r: String)
    ensures
        r@ == int_text(v as int),
{
    v.to_string()
}

/// Decodes the text of one cell into a value of type `t`.
///
/// Text that does not parse never fails: an integer column gets its sentinel,
/// a boolean column gets false.
pub fn decode_cell(t: MOJO_DataType, s: &str) -> (r: Cell)
    requires
        t.is_supported(),
    ensures
        r@ == decode_spec(t, s@),
        cell_type(r@) == t,
{
    match t {
        MOJO_DataType::MOJO_BOOL => Cell::Bool(mojo2_parse_bool(s)),
        MOJO_DataType::MOJO_INT32 => Cell::Int32(
            match parse_i32(s) {
                Some(v) => v,
                None => MOJO_INT32_NAN,
            },
        ),
        MOJO_DataType::MOJO_INT64 => Cell::Int64(
            match parse_i64(s) {
                Some(v) => v,
                None => MOJO_INT64_NAN,
            },
        ),
        MOJO_DataType::MOJO_FLOAT => Cell::Float32Text(s.to_owned()),
        MOJO_DataType::MOJO_DOUBLE => Cell::Float64Text(s.to_owned()),
        _ => Cell::Str(s.to_owned()),
    }
}

/// Encodes one value as the text of a CSV cell.
pub fn encode_cell(c: &Cell) -> (r: String)
    ensures
        r@ == encode_spec(c@),
{
    match c {
        Cell::Bool(b) => {
            proof {
                reveal_strlit("true");
                reveal_strlit("false");
            }
            if *b {
                String::from_str("true")
            } else {
                String::from_str("false")
            }
        },
        Cell::Int32(v) => i32_text(*v),
        Cell::Int64(v) => i64_text(*v),
        Cell::Float32Text(s) => s.clone(),
        Cell::Float64Text(s) => s.clone(),
        Cell::Str(s) => s.clone(),
    }
}

// ---------------------------------------------------------------- laws

proof fn lemma_digit_char(d: int)
    requires
        0 <= d < 10,
    ensures
        is_digit(digit_char(d)),
        digit_value(digit_char(d)) == d,
{
}

proof fn lemma_nat_text(n: nat)
    ensures
        nat_text(n).len() > 0,
        all_digits(nat_text(n)),
        digits_value(nat_text(n)) == n,
    decreases n,
{
    let s = nat_text(n);
    if n < 10 {
        lemma_digit_char(n as int);
        assert(s.drop_last() =~= Seq::<char>::empty());
        assert(digits_value(Seq::<char>::empty()) == 0);
        assert(s.last() == digit_char(n as int));
        assert(digits_value(s) == digit_value(digit_char(n as int)));
    } else {
        lemma_nat_text(n / 10);
        lemma_digit_char(n as int % 10);
        assert(s.drop_last() =~= nat_text(n / 10));
        assert(s.last() == digit_char(n as int % 10));
        assert(digits_value(s) == digits_value(nat_text(n / 10)) * 10 + (n as int % 10));
        assert((n / 10) * 10 + n % 10 == n);
    }
}

/// The decimal text of an integer parses back to the same integer.
pub proof fn lemma_int_text_parses(v: int)
    ensures
        is_decimal_text(int_text(v)),
        decimal_value(int_text(v)) == v,
{
    let s = int_text(v);
    if v < 0 {
        lemma_nat_text((-v) as nat);
        assert(s.drop_first() =~= nat_text((-v) as nat));
    } else {
        lemma_nat_text(v as nat);
    }
}

/// Decoding a value's encoding gives the value back: encoding a decoded cell
/// and decoding that text again reproduces the decoded cell, for every text
/// and every supported type.
pub proof fn lemma_decode_encode_round_trip(t: MOJO_DataType, s: Seq<char>)
    requires
        t.is_supported(),
    ensures
        decode_spec(t, encode_spec(decode_spec(t, s))) == decode_spec(t, s),
{
    match decode_spec(t, s) {
        CellView::Bool(b) => {
            let lits = true_literals();
            if b {
                assert(lits[0] =~= bool_text(true));
            } else {
                assert forall|i: int| 0 <= i < lits.len() implies lits[i] != bool_text(false) by {
                    assert(lits[i].len() != 5 || lits[i][0] != 'f');
                }
            }
        },
        CellView::Int32(v) => {
            lemma_int_text_parses(v as int);
        },
        CellView::Int64(v) => {
            lemma_int_text_parses(v as int);
        },
        _ => {},
    }
}

/// Every integer text that does not parse decodes to the same sentinel:
/// `MOJO_INT32_NAN` in an `MOJO_INT32` column, `MOJO_INT64_NAN` in an
/// `MOJO_INT64` column.
pub proof fn lemma_unparseable_int_is_sentinel(s1: Seq<char>, s2: Seq<char>)
    requires
        !is_decimal_text(s1),
        !is_decimal_text(s2),
    ensures
        decode_spec(MOJO_DataType::MOJO_INT32, s1) == decode_spec(MOJO_DataType::MOJO_INT32, s2),
        decode_spec(MOJO_DataType::MOJO_INT32, s1) == CellView::Int32(MOJO_INT32_NAN),
        decode_spec(MOJO_DataType::MOJO_INT64, s1) == decode_spec(MOJO_DataType::MOJO_INT64, s2),
        decode_spec(MOJO_DataType::MOJO_INT64, s1) == CellView::Int64(MOJO_INT64_NAN),
{
}

/// Each true literal decodes to true, each false literal to false, and any
/// other text to false.
pub proof fn lemma_bool_literals(s: Seq<char>)
    ensures
        true_literals().contains(s) ==> decode_spec(MOJO_DataType::MOJO_BOOL, s) == CellView::Bool(true),
        false_literals().contains(s) ==> decode_spec(MOJO_DataType::MOJO_BOOL, s) == CellView::Bool(false),
        !true_literals().contains(s) ==> decode_spec(MOJO_DataType::MOJO_BOOL, s) == CellView::Bool(false),
{
    let t = true_literals();
    let f = false_literals();
    if f.contains(s) {
        let j = choose|j: int| 0 <= j < f.len() && f[j] == s;
        assert forall|i: int| 0 <= i < t.len() implies t[i] != s by {
            assert(t[i][0] != f[j][0]);
        }
    }
}

} // verus!
