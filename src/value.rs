use vstd::prelude::*;
use vstd::string::*;
use vstd::utf8::encode_utf8;

verus! {

/// Operator identities, shared with the compiler's token vocabulary; an
/// error names the operator that failed by one of these.
#[derive(Clone, Copy, Debug, PartialEq, Eq, Structural)]
pub enum Operator {
    Add,
    AssignAdd,
    Subtract,
    AssignSubtract,
    Multiply,
    AssignMultiply,
    Divide,
    AssignDivide,
    IntDivide,
    AssignIntDivide,
    Modulo,
    AssignModulo,
    BitwiseAnd,
    AssignBitwiseAnd,
    BitwiseOr,
    AssignBitwiseOr,
    BitwiseXor,
    AssignBitwiseXor,
    BinaryShiftLeft,
    AssignBinaryShiftLeft,
    BinaryShiftRight,
    AssignBinaryShiftRight,
    Complement,
    Not,
    Equal,
    NotEqual,
    LessThan,
    LessThanOrEqual,
    GreaterThan,
    GreaterThanOrEqual,
}

/// The two variants a value can take.
#[derive(Clone, Copy, Debug, PartialEq, Eq, Structural)]
pub enum Kind {
    Real,
    Str,
}

impl Kind {
    /// The name of the variant, as error messages print it.
    pub fn ty_str(&self) -> (r: &'static str)
        ensures
            r@ == (match self {
                Kind::Real => "real"@,
                Kind::Str => "string"@,
            }),
    {
        match self {
            Kind::Real => "real",
            Kind::Str => "string",
        }
    }
}

/// Whether binary operator `op` accepts operands of kinds `lhs` and `rhs`:
/// two reals for every numeric and comparison operator, two strings for
/// addition and comparison, and a real times a string for multiplication;
/// each assign form takes what its plain operator takes.
pub open spec fn accepts_binary(op: Operator, lhs: Kind, rhs: Kind) -> bool {
    match op {
        Operator::Complement | Operator::Not => false,
        Operator::Add | Operator::AssignAdd | Operator::Equal | Operator::NotEqual
        | Operator::LessThan | Operator::LessThanOrEqual | Operator::GreaterThan
        | Operator::GreaterThanOrEqual => lhs == rhs,
        Operator::Multiply | Operator::AssignMultiply => lhs == Kind::Real,
        _ => lhs == Kind::Real && rhs == Kind::Real,
    }
}

/// Each assign form accepts exactly the operand kinds that its plain
/// operator accepts, so the two fail on the same operands.
pub proof fn lemma_assign_forms_share_rules(lhs: Kind, rhs: Kind)
    ensures
        accepts_binary(Operator::AssignAdd, lhs, rhs) == accepts_binary(Operator::Add, lhs, rhs),
        accepts_binary(Operator::AssignSubtract, lhs, rhs) == accepts_binary(Operator::Subtract, lhs, rhs),
        accepts_binary(Operator::AssignMultiply, lhs, rhs) == accepts_binary(Operator::Multiply, lhs, rhs),
        accepts_binary(Operator::AssignDivide, lhs, rhs) == accepts_binary(Operator::Divide, lhs, rhs),
        accepts_binary(Operator::AssignIntDivide, lhs, rhs) == accepts_binary(Operator::IntDivide, lhs, rhs),
        accepts_binary(Operator::AssignModulo, lhs, rhs) == accepts_binary(Operator::Modulo, lhs, rhs),
        accepts_binary(Operator::AssignBitwiseAnd, lhs, rhs) == accepts_binary(Operator::BitwiseAnd, lhs, rhs),
        accepts_binary(Operator::AssignBitwiseOr, lhs, rhs) == accepts_binary(Operator::BitwiseOr, lhs, rhs),
        accepts_binary(Operator::AssignBitwiseXor, lhs, rhs) == accepts_binary(Operator::BitwiseXor, lhs, rhs),
        accepts_binary(Operator::AssignBinaryShiftLeft, lhs, rhs) == accepts_binary(Operator::BinaryShiftLeft, lhs, rhs),
        accepts_binary(Operator::AssignBinaryShiftRight, lhs, rhs) == accepts_binary(Operator::BinaryShiftRight, lhs, rhs),
{
}

/// Whether unary operator `op` accepts an operand of kind `k`: negation,
/// complement and logical not take a real.
pub open spec fn accepts_unary(op: Operator, k: Kind) -> bool {
    match op {
        Operator::Subtract | Operator::Complement | Operator::Not => k == Kind::Real,
        _ => false,
    }
}

/// Whether binary operator `op` is defined on operands of these kinds; where
/// it is not, the operation fails with an invalid-operands error.
pub fn operands_accepted(op: Operator, lhs: Kind, rhs: Kind) -> (r: bool)
    ensures
        r == accepts_binary(op, lhs, rhs),
{
    match op {
        Operator::Complement | Operator::Not => false,
        Operator::Add | Operator::AssignAdd | Operator::Equal | Operator::NotEqual
        | Operator::LessThan | Operator::LessThanOrEqual | Operator::GreaterThan
        | Operator::GreaterThanOrEqual => lhs == rhs,
        Operator::Multiply | Operator::AssignMultiply => lhs == Kind::Real,
        _ => lhs == Kind::Real && rhs == Kind::Real,
    }
}

/// Whether unary operator `op` is defined on an operand of kind `k`.
pub fn operand_accepted(op: Operator, k: Kind) -> (r: bool)
    ensures
        r == accepts_unary(op, k),
{
    match op {
        Operator::Subtract | Operator::Complement | Operator::Not => k == Kind::Real,
        _ => false,
    }
}

/// Concatenation of two strings into a new buffer.
pub fn concat_strings(lhs: &str, rhs: &str) -> (r: String)
    ensures
        r@ == lhs@ + rhs@,
        r@.len() == lhs@.len() + rhs@.len(),
{
    let mut s = String::from_str(lhs);
    s.append(rhs);
    s
}

/// `s` written `n` times in a row.
pub open spec fn repeat_seq(s: Seq<char>, n: nat) -> Seq<char>
    decreases n,
{
    if n == 0 {
        Seq::empty()
    } else {
        repeat_seq(s, (n - 1) as nat) + s
    }
}

/// `s` repeated `count` times; empty where `count` is not positive.
pub fn repeat_string(count: i32, s: &str) -> (r: String)
    ensures
        r@ == repeat_seq(s@, if count > 0 { count as nat } else { 0 }),
{
    let mut r = String::new();
    let mut i: i32 = 0;
    while i < count
        invariant
            0 <= i,
            count > 0 ==> i <= count,
            count <= 0 ==> i == 0,
            r@ == repeat_seq(s@, i as nat),
        decreases count - i,
    {
        r.append(s);
        i += 1;
    }
    r
}

/// The six relational operators.
#[derive(Clone, Copy, Debug, PartialEq, Eq, Structural)]
pub enum Comparison {
    Equal,
    NotEqual,
    LessThan,
    LessThanOrEqual,
    GreaterThan,
    GreaterThanOrEqual,
}

/// Lexicographic order of two sequences of code units: -1, 0 or 1 as `a`
/// sorts before, equal to, or after `b`.
pub open spec fn lex_cmp(a: Seq<u8>, b: Seq<u8>) -> int
    decreases a.len(),
{
    if a.len() == 0 {
        if b.len() == 0 {
            0
        } else {
            -1
        }
    } else if b.len() == 0 {
        1
    } else if a[0] < b[0] {
        -1
    } else if a[0] > b[0] {
        1
    } else {
        lex_cmp(a.drop_first(), b.drop_first())
    }
}

/// Whether `cmp` holds of two strings, ordered by their UTF-8 code units.
pub open spec fn string_relation(cmp: Comparison, a: Seq<char>, b: Seq<char>) -> bool {
    let c = lex_cmp(encode_utf8(a), encode_utf8(b));
    match cmp {
        Comparison::Equal => c == 0,
        Comparison::NotEqual => c != 0,
        Comparison::LessThan => c < 0,
        Comparison::LessThanOrEqual => c <= 0,
        Comparison::GreaterThan => c > 0,
        Comparison::GreaterThanOrEqual => c >= 0,
    }
}

proof fn lemma_lex_cmp_step(a: Seq<u8>, b: Seq<u8>, i: int)
    requires
        0 <= i < a.len(),
        i < b.len(),
        a[i] == b[i],
    ensures
        lex_cmp(a.subrange(i, a.len() as int), b.subrange(i, b.len() as int)) == lex_cmp(
            a.subrange(i + 1, a.len() as int),
            b.subrange(i + 1, b.len() as int),
        ),
{
    assert(a.subrange(i, a.len() as int).drop_first() =~= a.subrange(i + 1, a.len() as int));
    assert(b.subrange(i, b.len() as int).drop_first() =~= b.subrange(i + 1, b.len() as int));
}

/// Order of the code units of `a` against those of `b`: -1, 0 or 1.
fn compare_bytes(a: &[u8], b: &[u8]) -> (r: i8)
    ensures
        r as int == lex_cmp(a@, b@),
{
    let mut i: usize = 0;
    assert(a@.subrange(0, a@.len() as int) =~= a@);
    assert(b@.subrange(0, b@.len() as int) =~= b@);
    while i < a.len() && i < b.len()
        invariant
            i <= a@.len(),
            i <= b@.len(),
            lex_cmp(a@, b@) == lex_cmp(
                a@.subrange(i as int, a@.len() as int),
                b@.subrange(i as int, b@.len() as int),
            ),
        decreases a@.len() - i,
    {
        if a[i] < b[i] {
            return -1;
        }
        if a[i] > b[i] {
            return 1;
        }
        proof {
            lemma_lex_cmp_step(a@, b@, i as int);
        }
        i += 1;
    }
    if i < a.len() {
        1
    } else if i < b.len() {
        -1
    } else {
        0
    }
}

/// Compares two strings by their code units.
pub fn compare_strings(cmp: Comparison, a: &str, b: &str) -> (r: bool)
    ensures
        r == string_relation(cmp, a@, b@),
{
    let c = compare_bytes(a.as_bytes(), b.as_bytes());
    match cmp {
        Comparison::Equal => c == 0,
        Comparison::NotEqual => c != 0,
        Comparison::LessThan => c < 0,
        Comparison::LessThanOrEqual => c <= 0,
        Comparison::GreaterThan => c > 0,
        Comparison::GreaterThanOrEqual => c >= 0,
    }
}

/// Whether `cmp` holds of two reals, given whether the first is below the
/// second (`lt`), above it (`gt`), and whether they lie within the
/// engine's tolerance of each other (`close`). Equality and the non-strict
/// orders honour the tolerance; the strict orders do not.
pub open spec fn real_relation(cmp: Comparison, lt: bool, gt: bool, close: bool) -> bool {
    match cmp {
        Comparison::Equal => close,
        Comparison::NotEqual => !close,
        Comparison::LessThan => lt,
        Comparison::LessThanOrEqual => lt || close,
        Comparison::GreaterThan => gt,
        Comparison::GreaterThanOrEqual => gt || close,
    }
}

/// Decides `cmp` on two reals from how they are ordered and whether they
/// are within tolerance of each other.
pub fn compare_reals(cmp: Comparison, lt: bool, gt: bool, close: bool) -> (r: bool)
    ensures
        r == real_relation(cmp, lt, gt, close),
{
    match cmp {
        Comparison::Equal => close,
        Comparison::NotEqual => !close,
        Comparison::LessThan => lt,
        Comparison::LessThanOrEqual => lt || close,
        Comparison::GreaterThan => gt,
        Comparison::GreaterThanOrEqual => gt || close,
    }
}

/// Of two comparable reals (one below the other, one above the other, or
/// the two within tolerance), at least one is at most the other: `<=` and
/// `>=` are never both false.
pub proof fn lemma_lte_or_gte(lt: bool, gt: bool, close: bool)
    requires
        lt || gt || close,
    ensures
        real_relation(Comparison::LessThanOrEqual, lt, gt, close) || real_relation(
            Comparison::GreaterThanOrEqual,
            lt,
            gt,
            close,
        ),
{
}

proof fn lemma_lex_cmp_refl(a: Seq<u8>)
    ensures
        lex_cmp(a, a) == 0,
    decreases a.len(),
{
    if a.len() > 0 {
        lemma_lex_cmp_refl(a.drop_first());
    }
}

/// Every string equals itself, and so equals any copy of it.
pub proof fn lemma_string_equal_refl(s: Seq<char>)
    ensures
        string_relation(Comparison::Equal, s, s),
        !string_relation(Comparison::NotEqual, s, s),
{
    lemma_lex_cmp_refl(encode_utf8(s));
}

/// The bitwise and shift operators on 32-bit integers.
#[derive(Clone, Copy, Debug, PartialEq, Eq, Structural)]
pub enum BitOp {
    And,
    Or,
    Xor,
    ShiftLeft,
    ShiftRight,
}

/// `op` on two 32-bit integers. Shift counts go as the machine's 32-bit
/// shift takes them: only their low five bits count.
pub open spec fn bit_op_spec(op: BitOp, a: i32, b: i32) -> i32 {
    match op {
        BitOp::And => a & b,
        BitOp::Or => a | b,
        BitOp::Xor => a ^ b,
        BitOp::ShiftLeft => a.wrapping_shl(b as u32),
        BitOp::ShiftRight => a.wrapping_shr(b as u32),
    }
}

/// Applies a bitwise or shift operator to the integer views of two reals.
pub fn bit_op(op: BitOp, a: i32, b: i32) -> (r: i32)
    ensures
        r == bit_op_spec(op, a, b),
{
    match op {
        BitOp::And => a & b,
        BitOp::Or => a | b,
        BitOp::Xor => a ^ b,
        BitOp::ShiftLeft => a.wrapping_shl(b as u32),
        BitOp::ShiftRight => a.wrapping_shr(b as u32),
    }
}

/// Bitwise complement of the integer view of a real.
pub fn complement_bits(a: i32) -> (r: i32)
    ensures
        r == !a,
        r == -a - 1,
{
    assert(!a == -a - 1) by (bit_vector);
    !a
}

/// The boolean operators on truthiness.
#[derive(Clone, Copy, Debug, PartialEq, Eq, Structural)]
pub enum Logic {
    And,
    Or,
    Xor,
}

/// Applies a boolean operator to the truthiness of its two operands; both
/// operands have been evaluated already.
pub fn logic_op(op: Logic, a: bool, b: bool) -> (r: bool)
    ensures
        r == match op {
            Logic::And => a && b,
            Logic::Or => a || b,
            Logic::Xor => a != b,
        },
{
    match op {
        Logic::And => a && b,
        Logic::Or => a || b,
        Logic::Xor => a != b,
    }
}

} // verus!
