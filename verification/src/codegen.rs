use vstd::prelude::*;
use crate::ast::{Attribute, BinOp, BuiltinType, UnOp};
use crate::ir::{zst_spec, Const, Expr, ExprKind, FuncBody, Function, IntrinsicValueKind, IrCtx, LocalDef, Parameter, Statement, Static, StructInit, TupleInit, Ty, Value};
use crate::diag::ErrorKind;
use crate::Span;

verus! {

/// The decimal spelling of a number.
pub open spec fn dec_digits(n: nat) -> Seq<char>
    decreases n,
{
    if n < 10 {
        seq![digit_char(n)]
    } else {
        dec_digits(n / 10) + seq![digit_char(n % 10)]
    }
}

pub open spec fn digit_char(d: nat) -> char {
    if d == 0 {
        '0'
    } else if d == 1 {
        '1'
    } else if d == 2 {
        '2'
    } else if d == 3 {
        '3'
    } else if d == 4 {
        '4'
    } else if d == 5 {
        '5'
    } else if d == 6 {
        '6'
    } else if d == 7 {
        '7'
    } else if d == 8 {
        '8'
    } else {
        '9'
    }
}

/// The decimal spelling of a signed number: a minus sign, then the digits of
/// the magnitude.
pub open spec fn sdec_digits(v: int) -> Seq<char> {
    if v < 0 {
        seq!['-'] + dec_digits((-v) as nat)
    } else {
        dec_digits(v as nat)
    }
}

fn digit_str(d: u8) -> (r: &'static str)
    requires
        d < 10,
    ensures
        r@ == seq![digit_char(d as nat)],
{
    proof {
        reveal_strlit("0");
        reveal_strlit("1");
        reveal_strlit("2");
        reveal_strlit("3");
        reveal_strlit("4");
        reveal_strlit("5");
        reveal_strlit("6");
        reveal_strlit("7");
        reveal_strlit("8");
        reveal_strlit("9");
    }
    match d {
        0 => "0",
        1 => "1",
        2 => "2",
        3 => "3",
        4 => "4",
        5 => "5",
        6 => "6",
        7 => "7",
        8 => "8",
        _ => "9",
    }
}

/// Writes a number in decimal.
pub fn u128_dec(n: u128) -> (r: String)
    ensures
        r@ == dec_digits(n as nat),
    decreases n,
{
    if n < 10 {
        String::from_str(digit_str(n as u8))
    } else {
        let mut s = u128_dec(n / 10);
        s.append(digit_str((n % 10) as u8));
        s
    }
}

pub fn u64_dec(n: u64) -> (r: String)
    ensures
        r@ == dec_digits(n as nat),
{
    u128_dec(n as u128)
}

pub fn usize_dec(n: usize) -> (r: String)
    ensures
        r@ == dec_digits(n as nat),
{
    u128_dec(n as u128)
}

/// Writes a signed number in decimal.
pub fn i128_dec(v: i128) -> (r: String)
    ensures
        r@ == sdec_digits(v as int),
{
    if v < 0 {
        proof {
            reveal_strlit("-");
        }
        let mut s = String::from_str("-");
        let magnitude: u128 = (-(v as i128 + 1)) as u128 + 1;
        proof {
            assert(magnitude as int == -(v as int));
        }
        s.append(u128_dec(magnitude).as_str());
        s
    } else {
        u128_dec(v as u128)
    }
}

pub fn i64_dec(v: i64) -> (r: String)
    ensures
        r@ == sdec_digits(v as int),
{
    i128_dec(v as i128)
}

pub fn isize_dec(v: isize) -> (r: String)
    ensures
        r@ == sdec_digits(v as int),
{
    i128_dec(v as i128)
}

/// How an item is named in the emitted C.
#[derive(Clone, PartialEq, Eq, Debug)]
pub enum CName {
    /// The identifier verbatim: `extern`, exported, or `link_name` items.
    Native(String),
    /// `name_<id>`: the default for module-local items.
    Mangled(String, usize),
    /// An opaque identifier for anonymous items.
    Id(usize),
}

/// The text a C name denotes.
pub open spec fn cname_text(c: CName) -> Seq<char> {
    match c {
        CName::Native(n) => n@,
        CName::Mangled(n, id) => n@ + seq!['_'] + dec_digits(id as nat),
        CName::Id(id) => seq!['_'] + dec_digits(id as nat),
    }
}

/// First registration of an id wins.
pub open spec fn name_lookup(names: Seq<(usize, CName)>, id: usize) -> Option<CName>
    decreases names.len(),
{
    if names.len() == 0 {
        None
    } else if names[0].0 == id {
        Some(names[0].1)
    } else {
        name_lookup(names.drop_first(), id)
    }
}

/// The text an id is emitted as: its registered name, or an opaque
/// identifier when none was registered.
pub open spec fn name_text(names: Seq<(usize, CName)>, id: usize) -> Seq<char> {
    match name_lookup(names, id) {
        Some(c) => cname_text(c),
        None => cname_text(CName::Id(id)),
    }
}

/// The name registry and id counter the emitter works with.
pub struct CodegenCtx {
    pub names: Vec<(usize, CName)>,
    /// Registry of minted mangling ids; the next id is its length.
    pub ids: Vec<usize>,
}

impl CodegenCtx {
    pub open spec fn counter(self) -> int {
        self.ids@.len() as int
    }

    pub fn new() -> (r: CodegenCtx)
        ensures
            r.names@.len() == 0,
            r.counter() == 0,
    {
        CodegenCtx { names: Vec::new(), ids: Vec::new() }
    }

    pub fn make_id(&mut self) -> (r: usize)
        ensures
            r == old(self).counter(),
            final(self).counter() == old(self).counter() + 1,
            final(self).names@ == old(self).names@,
    {
        let id = self.ids.len();
        self.ids.push(id);
        id
    }

    pub fn register_name(&mut self, id: usize, name: CName)
        ensures
            final(self).names@ == old(self).names@.push((id, name)),
            final(self).ids@ == old(self).ids@,
    {
        self.names.push((id, name));
    }

    /// The C text of an id's name.
    pub fn get_name(&self, id: usize) -> (r: String)
        ensures
            r@ == name_text(self.names@, id),
    {
        let n = self.names.len();
        let mut i: usize = 0;
        proof {
            assert(self.names@.skip(0) =~= self.names@);
        }
        while i < n
            invariant
                n == self.names@.len(),
                i <= n,
                name_lookup(self.names@, id) == name_lookup(self.names@.skip(i as int), id),
                forall|k: int| 0 <= k < i ==> (#[trigger] self.names@[k]).0 != id,
            decreases n - i,
        {
            proof {
                assert(self.names@.skip(i as int).len() > 0);
                assert(self.names@.skip(i as int)[0] == self.names@[i as int]);
                assert(self.names@.skip(i as int).drop_first() =~= self.names@.skip(i + 1));
            }
            if self.names[i].0 == id {
                let r = cname_string(&self.names[i].1);
                return r;
            }
            i = i + 1;
        }
        proof {
            assert(self.names@.skip(n as int).len() == 0);
        }
        cname_string(&CName::Id(id))
    }
}

/// Renders a C name.
pub fn cname_string(c: &CName) -> (r: String)
    ensures
        r@ == cname_text(*c),
{
    proof {
        reveal_strlit("_");
    }
    match c {
        CName::Native(n) => n.clone(),
        CName::Mangled(n, id) => {
            let mut s = n.clone();
            s.append("_");
            s.append(usize_dec(*id).as_str());
            s
        },
        CName::Id(id) => {
            let mut s = String::from_str("_");
            s.append(usize_dec(*id).as_str());
            s
        },
    }
}

/// The C spelling of a builtin type.
pub open spec fn builtin_c_name(b: BuiltinType) -> Seq<char> {
    match b {
        BuiltinType::Void => "void"@,
        BuiltinType::Never => "void"@,
        BuiltinType::Bool => "_Bool"@,
        BuiltinType::U8 => "uint8_t"@,
        BuiltinType::U16 => "uint16_t"@,
        BuiltinType::U32 => "uint32_t"@,
        BuiltinType::U64 => "uint64_t"@,
        BuiltinType::U128 => "uint128_t"@,
        BuiltinType::USize => "size_t"@,
        BuiltinType::ISize => "ptrdiff_t"@,
        BuiltinType::I8 => "int8_t"@,
        BuiltinType::I16 => "int16_t"@,
        BuiltinType::I32 => "int32_t"@,
        BuiltinType::I64 => "int64_t"@,
        BuiltinType::I128 => "int128_t"@,
        BuiltinType::F32 => "float"@,
        BuiltinType::F64 => "double"@,
    }
}

/// The C text of a type: builtins keep their C names, every other type goes
/// by the typedef name derived from its intern index.
pub open spec fn type_text(ty: Ty, t: int) -> Seq<char> {
    match ty {
        Ty::Builtin(b) => builtin_c_name(b),
        _ => "ty_"@ + dec_digits(t as nat),
    }
}

/// Renders the C name of an interned type.
pub fn get_type(ir: &IrCtx, t: usize) -> (r: String)
    requires
        (t as int) < ir.types@.len(),
    ensures
        r@ == type_text(ir.types@[t as int], t as int),
{
    match ir.types[t] {
        Ty::Builtin(b) => match b {
            BuiltinType::Void => String::from_str("void"),
            BuiltinType::Never => String::from_str("void"),
            BuiltinType::Bool => String::from_str("_Bool"),
            BuiltinType::U8 => String::from_str("uint8_t"),
            BuiltinType::U16 => String::from_str("uint16_t"),
            BuiltinType::U32 => String::from_str("uint32_t"),
            BuiltinType::U64 => String::from_str("uint64_t"),
            BuiltinType::U128 => String::from_str("uint128_t"),
            BuiltinType::USize => String::from_str("size_t"),
            BuiltinType::ISize => String::from_str("ptrdiff_t"),
            BuiltinType::I8 => String::from_str("int8_t"),
            BuiltinType::I16 => String::from_str("int16_t"),
            BuiltinType::I32 => String::from_str("int32_t"),
            BuiltinType::I64 => String::from_str("int64_t"),
            BuiltinType::I128 => String::from_str("int128_t"),
            BuiltinType::F32 => String::from_str("float"),
            BuiltinType::F64 => String::from_str("double"),
        },
        _ => {
            proof {
                reveal_strlit("ty_");
            }
            let mut s = String::from_str("ty_");
            s.append(usize_dec(t).as_str());
            s
        },
    }
}

/// The C operator a binary operation prints as.
pub open spec fn binop_token(op: BinOp) -> Seq<char> {
    match op {
        BinOp::And => "&&"@,
        BinOp::Or => "||"@,
        BinOp::BitAnd => "&"@,
        BinOp::BitOr => "|"@,
        BinOp::BitXor => "^"@,
        BinOp::Eq => "=="@,
        BinOp::Neq => "!="@,
        BinOp::Lt => "<"@,
        BinOp::LEq => "<="@,
        BinOp::Gt => ">"@,
        BinOp::GEq => ">="@,
        BinOp::LShift => "<<"@,
        BinOp::RShift => ">>"@,
        BinOp::Plus => "+"@,
        BinOp::Minus => "-"@,
        BinOp::Mul => "*"@,
        BinOp::Div => "/"@,
        BinOp::Mod => "%"@,
    }
}

pub fn binop_str(op: BinOp) -> (r: &'static str)
    ensures
        r@ == binop_token(op),
{
    match op {
        BinOp::And => "&&",
        BinOp::Or => "||",
        BinOp::BitAnd => "&",
        BinOp::BitOr => "|",
        BinOp::BitXor => "^",
        BinOp::Eq => "==",
        BinOp::Neq => "!=",
        BinOp::Lt => "<",
        BinOp::LEq => "<=",
        BinOp::Gt => ">",
        BinOp::GEq => ">=",
        BinOp::LShift => "<<",
        BinOp::RShift => ">>",
        BinOp::Plus => "+",
        BinOp::Minus => "-",
        BinOp::Mul => "*",
        BinOp::Div => "/",
        BinOp::Mod => "%",
    }
}

pub open spec fn unop_token(op: UnOp) -> Seq<char> {
    match op {
        UnOp::Neg => "-"@,
        UnOp::Not => "!"@,
        UnOp::BitNot => "~"@,
    }
}

pub fn unop_str(op: UnOp) -> (r: &'static str)
    ensures
        r@ == unop_token(op),
{
    match op {
        UnOp::Neg => "-",
        UnOp::Not => "!",
        UnOp::BitNot => "~",
    }
}



/// Relies on String::push: appends exactly one character.
#[verifier::external_body]
pub fn push_char(s: &mut String, c: char)
    ensures
        final(s)@ == old(s)@ + seq![c],
{
    s.push(c);
}

/// Whether a float spelling would parse as an integer in C.
pub open spec fn all_digitish(s: Seq<char>) -> bool {
    forall|i: int| 0 <= i < s.len() ==> (('0' <= #[trigger] s[i] <= '9') || s[i] == '-')
}

/// The float spelling the emitter uses: `1` becomes `1e0` so that the C
/// compiler reads a float constant; spellings with a dot or an exponent stay
/// as they are.
pub open spec fn force_float_text(s: Seq<char>) -> Seq<char> {
    if all_digitish(s) {
        s + "e0"@
    } else {
        s
    }
}

/// Prevents a bare integer spelling from being read as an int constant.
pub fn force_float(v: &str) -> (r: String)
    ensures
        r@ == force_float_text(v@),
{
    let n = v.unicode_len();
    let mut i: usize = 0;
    let mut plain = true;
    while i < n
        invariant
            n == v@.len(),
            i <= n,
            plain == (forall|k: int|
                0 <= k < i ==> (('0' <= #[trigger] v@[k] <= '9') || v@[k] == '-')),
        decreases n - i,
    {
        let c = v.get_char(i);
        if !(('0' <= c && c <= '9') || c == '-') {
            plain = false;
        }
        i = i + 1;
    }
    if plain {
        proof {
            reveal_strlit("e0");
        }
        let mut s = String::from_str(v);
        s.append("e0");
        s
    } else {
        String::from_str(v)
    }
}

pub open spec fn hex_char(d: nat) -> char {
    if d == 0 {
        '0'
    } else if d == 1 {
        '1'
    } else if d == 2 {
        '2'
    } else if d == 3 {
        '3'
    } else if d == 4 {
        '4'
    } else if d == 5 {
        '5'
    } else if d == 6 {
        '6'
    } else if d == 7 {
        '7'
    } else if d == 8 {
        '8'
    } else if d == 9 {
        '9'
    } else if d == 10 {
        'a'
    } else if d == 11 {
        'b'
    } else if d == 12 {
        'c'
    } else if d == 13 {
        'd'
    } else if d == 14 {
        'e'
    } else {
        'f'
    }
}

fn hex_digit_str(d: u8) -> (r: &'static str)
    requires
        d < 16,
    ensures
        r@ == seq![hex_char(d as nat)],
{
    proof {
        reveal_strlit("0");
        reveal_strlit("1");
        reveal_strlit("2");
        reveal_strlit("3");
        reveal_strlit("4");
        reveal_strlit("5");
        reveal_strlit("6");
        reveal_strlit("7");
        reveal_strlit("8");
        reveal_strlit("9");
        reveal_strlit("a");
        reveal_strlit("b");
        reveal_strlit("c");
        reveal_strlit("d");
        reveal_strlit("e");
        reveal_strlit("f");
    }
    match d {
        0 => "0",
        1 => "1",
        2 => "2",
        3 => "3",
        4 => "4",
        5 => "5",
        6 => "6",
        7 => "7",
        8 => "8",
        9 => "9",
        10 => "a",
        11 => "b",
        12 => "c",
        13 => "d",
        14 => "e",
        _ => "f",
    }
}

/// Whether a byte, printed right after a hex escape, would be read as part
/// of that escape by a C compiler (C hex escapes have no length limit).
pub open spec fn extends_hex_escape(c: u8) -> bool {
    (97 <= c <= 102) || (65 <= c <= 70) || (48 <= c <= 57)
}

/// The escape text of one byte of a string literal, given whether the byte
/// before it was hex-escaped, and whether this byte is hex-escaped.
pub open spec fn escape_one(c: u8, prev_hex: bool) -> (Seq<char>, bool) {
    if c == 92 {
        (seq!['\\', '\\'], false)
    } else if c == 39 {
        (seq!['\\', '\''], false)
    } else if c == 34 {
        (seq!['\\', '"'], false)
    } else if 32 <= c <= 126 {
        if prev_hex && extends_hex_escape(c) {
            (seq!['"', '"', c as char], false)
        } else {
            (seq![c as char], false)
        }
    } else {
        (seq!['\\', 'x', hex_char((c / 16) as nat), hex_char((c % 16) as nat)], true)
    }
}

/// The escape text of a byte string from position `i` on.
pub open spec fn escape_from(bytes: Seq<u8>, i: int, prev_hex: bool) -> Seq<char>
    decreases bytes.len() - i,
{
    if i < 0 || i >= bytes.len() {
        Seq::empty()
    } else {
        escape_one(bytes[i], prev_hex).0 + escape_from(
            bytes,
            i + 1,
            escape_one(bytes[i], prev_hex).1,
        )
    }
}

/// The C text of a string literal: a cast to `const uint8_t*` and the
/// escaped bytes in quotes.
pub open spec fn string_literal_text(bytes: Seq<u8>) -> Seq<char> {
    "(const uint8_t*)\""@ + escape_from(bytes, 0, false) + "\""@
}

/// Appends the C rendering of one string literal.
pub fn emit_string_literal(buf: &mut String, bytes: &Vec<u8>)
    ensures
        final(buf)@ == old(buf)@ + string_literal_text(bytes@),
{
    proof {
        reveal_strlit("(const uint8_t*)\"");
        reveal_strlit("\"");
        reveal_strlit("\\\\");
        reveal_strlit("\\'");
        reveal_strlit("\\\"");
        reveal_strlit("\"\"");
        reveal_strlit("\\x");
    }
    buf.append("(const uint8_t*)\"");
    let n = bytes.len();
    let mut i: usize = 0;
    let mut prev_hex = false;
    let ghost mut done: Seq<char> = Seq::empty();
    while i < n
        invariant
            n == bytes@.len(),
            i <= n,
            buf@ == old(buf)@ + "(const uint8_t*)\""@ + done,
            escape_from(bytes@, 0, false) == done + escape_from(bytes@, i as int, prev_hex),
        decreases n - i,
    {
        proof {
            reveal_strlit("(const uint8_t*)\"");
            reveal_strlit("\\\\");
            reveal_strlit("\\'");
            reveal_strlit("\\\"");
            reveal_strlit("\"\"");
            reveal_strlit("\\x");
        }
        let c = bytes[i];
        let ghost prev0 = prev_hex;
        let ghost piece = escape_one(c, prev0).0;
        if c == 92 {
            buf.append("\\\\");
            prev_hex = false;
        } else if c == 39 {
            buf.append("\\'");
            prev_hex = false;
        } else if c == 34 {
            buf.append("\\\"");
            prev_hex = false;
        } else if 32 <= c && c <= 126 {
            if prev_hex && ((97 <= c && c <= 102) || (65 <= c && c <= 70) || (48 <= c && c <= 57))
            {
                buf.append("\"\"");
            }
            push_char(buf, c as char);
            prev_hex = false;
        } else {
            buf.append("\\x");
            buf.append(hex_digit_str(c / 16));
            buf.append(hex_digit_str(c % 16));
            prev_hex = true;
        }
        proof {
            assert(prev_hex == escape_one(c, prev0).1);
            assert(escape_from(bytes@, i as int, prev0) == piece + escape_from(
                bytes@,
                i + 1,
                escape_one(c, prev0).1,
            ));
            assert(buf@ =~= old(buf)@ + "(const uint8_t*)\""@ + (done + piece));
            assert(done + escape_from(bytes@, i as int, prev0) =~= (done + piece)
                + escape_from(bytes@, i + 1, prev_hex));
            done = done + piece;
        }
        i = i + 1;
    }
    buf.append("\"");
    proof {
        assert(buf@ =~= old(buf)@ + string_literal_text(bytes@));
    }
}


/// The text of a 128-bit literal: assembled from its two 64-bit halves,
/// because C has no 128-bit constants.
pub open spec fn u128_lit_text(x: u128) -> Seq<char> {
    "((((uint128_t)"@ + dec_digits(((x >> 64) as u64) as nat) + "ULL) << 64) | ((uint128_t)"@
        + dec_digits((((x & 0xffff_ffff_ffff_ffff) as u64)) as nat) + "ULL))"@
}

/// The C text of a constant value.  String and function-pointer constants
/// are rendered by the expression writer, not here.
pub open spec fn const_val_text(v: Value) -> Seq<char> {
    match v {
        Value::Bool(b) => if b {
            "1"@
        } else {
            "0"@
        },
        Value::U8(x) => dec_digits(x as nat),
        Value::U16(x) => dec_digits(x as nat),
        Value::U32(x) => dec_digits(x as nat) + "ULL"@,
        Value::U64(x) => dec_digits(x as nat) + "ULL"@,
        Value::U128(x) => u128_lit_text(x),
        Value::I8(x) => sdec_digits(x as int),
        Value::I16(x) => sdec_digits(x as int),
        Value::I32(x) => sdec_digits(x as int) + "LL"@,
        Value::I64(x) => sdec_digits(x as int) + "LL"@,
        Value::I128(x) => u128_lit_text(x as u128),
        Value::USize(x) => dec_digits(x as nat) + "ULL"@,
        Value::ISize(x) => sdec_digits(x as int) + "LL"@,
        Value::F32(s) => force_float_text(s@) + "f"@,
        Value::F64(s) => force_float_text(s@),
        Value::Str(_, _) => Seq::empty(),
        Value::FunctionPointer(_) => Seq::empty(),
        Value::Uninitialized => "{0}"@,
    }
}

/// Appends the C rendering of a constant value; string and function-pointer
/// constants are not for this function.
pub fn emit_const_val(buf: &mut String, v: &Value) -> (r: Result<(), ErrorKind>)
    ensures
        match r {
            Ok(()) => !(v matches Value::Str(_, _)) && !(v matches Value::FunctionPointer(_))
                && final(buf)@ == old(buf)@ + const_val_text(*v),
            Err(k) => k == ErrorKind::InternalError && final(buf)@ == old(buf)@ && ((
            v matches Value::Str(_, _)) || (v matches Value::FunctionPointer(_))),
        },
{
    proof {
        reveal_strlit("0");
        reveal_strlit("1");
        reveal_strlit("ULL");
        reveal_strlit("LL");
        reveal_strlit("f");
        reveal_strlit("{0}");
        reveal_strlit("((((uint128_t)");
        reveal_strlit("ULL) << 64) | ((uint128_t)");
        reveal_strlit("ULL))");
    }
    match v {
        Value::Bool(b) => {
            if *b {
                buf.append("1");
            } else {
                buf.append("0");
            }
            Ok(())
        },
        Value::U8(x) => {
            buf.append(u128_dec(*x as u128).as_str());
            Ok(())
        },
        Value::U16(x) => {
            buf.append(u128_dec(*x as u128).as_str());
            Ok(())
        },
        Value::U32(x) => {
            buf.append(u128_dec(*x as u128).as_str());
            buf.append("ULL");
            Ok(())
        },
        Value::U64(x) => {
            buf.append(u128_dec(*x as u128).as_str());
            buf.append("ULL");
            Ok(())
        },
        Value::U128(x) => {
            emit_u128_lit(buf, *x);
            Ok(())
        },
        Value::I8(x) => {
            buf.append(i128_dec(*x as i128).as_str());
            Ok(())
        },
        Value::I16(x) => {
            buf.append(i128_dec(*x as i128).as_str());
            Ok(())
        },
        Value::I32(x) => {
            buf.append(i128_dec(*x as i128).as_str());
            buf.append("LL");
            Ok(())
        },
        Value::I64(x) => {
            buf.append(i128_dec(*x as i128).as_str());
            buf.append("LL");
            Ok(())
        },
        Value::I128(x) => {
            let bits: u128 = #[verifier::truncate] (*x as u128);
            emit_u128_lit(buf, bits);
            Ok(())
        },
        Value::USize(x) => {
            buf.append(u128_dec(*x as u128).as_str());
            buf.append("ULL");
            Ok(())
        },
        Value::ISize(x) => {
            buf.append(i128_dec(*x as i128).as_str());
            buf.append("LL");
            Ok(())
        },
        Value::F32(s) => {
            buf.append(force_float(s.as_str()).as_str());
            buf.append("f");
            Ok(())
        },
        Value::F64(s) => {
            buf.append(force_float(s.as_str()).as_str());
            Ok(())
        },
        Value::Str(_, _) => Err(ErrorKind::InternalError),
        Value::FunctionPointer(_) => Err(ErrorKind::InternalError),
        Value::Uninitialized => {
            buf.append("{0}");
            Ok(())
        },
    }
}

/// Appends a 128-bit literal assembled from two 64-bit halves.
pub fn emit_u128_lit(buf: &mut String, x: u128)
    ensures
        final(buf)@ == old(buf)@ + u128_lit_text(x),
{
    proof {
        reveal_strlit("((((uint128_t)");
        reveal_strlit("ULL) << 64) | ((uint128_t)");
        reveal_strlit("ULL))");
    }
    let hi: u64 = (x >> 64) as u64;
    let lo: u64 = (x & 0xffff_ffff_ffff_ffff) as u64;
    buf.append("((((uint128_t)");
    buf.append(u128_dec(hi as u128).as_str());
    buf.append("ULL) << 64) | ((uint128_t)");
    buf.append(u128_dec(lo as u128).as_str());
    buf.append("ULL))");
}

/// A run of spaces.
pub open spec fn spaces(n: int) -> Seq<char> {
    Seq::new(if n < 0 {
        0
    } else {
        n as nat
    }, |i: int| ' ')
}

pub fn append_spaces(buf: &mut String, n: usize)
    ensures
        final(buf)@ == old(buf)@ + spaces(n as int),
{
    let mut i: usize = 0;
    while i < n
        invariant
            i <= n,
            buf@ == old(buf)@ + spaces(i as int),
        decreases n - i,
    {
        push_char(buf, ' ');
        proof {
            assert(buf@ =~= old(buf)@ + spaces(i + 1));
        }
        i = i + 1;
    }
}

/// Writes function declarations and bodies into two buffers that are later
/// concatenated into the C translation unit.
pub struct FunctionWriter {
    pub ctx: CodegenCtx,
    pub fn_decls: String,
    pub fn_bodies: String,
    pub indent: usize,
    pub debug_info: bool,
    pub in_const_init: bool,
    pub last_span: Option<Span>,
    /// The registered source files, by id, for debug line directives; the
    /// driver fills it from the diagnostic context.
    pub file_paths: Vec<String>,
}

/// The line ending between emitted statements; suppressed in debug mode
/// where line directives control the layout instead.
pub open spec fn endl_text(debug_info: bool) -> Seq<char> {
    if debug_info {
        Seq::empty()
    } else {
        "\n"@
    }
}

impl FunctionWriter {
    /// Everything except the body buffer is unchanged.
    pub open spec fn same_but_bodies(w2: FunctionWriter, w1: FunctionWriter) -> bool {
        w2 == (FunctionWriter { fn_bodies: w2.fn_bodies, ..w1 })
    }

    pub fn new(debug_info: bool) -> (r: FunctionWriter)
        ensures
            r.ctx.names@.len() == 0,
            r.ctx.counter() == 0,
            r.fn_decls@.len() == 0,
            r.fn_bodies@.len() == 0,
            r.indent == 0,
            r.debug_info == debug_info,
            r.in_const_init == false,
            r.last_span is None,
            r.file_paths@.len() == 0,
    {
        FunctionWriter {
            ctx: CodegenCtx::new(),
            fn_decls: String::new(),
            fn_bodies: String::new(),
            indent: 0,
            debug_info,
            in_const_init: false,
            last_span: None,
            file_paths: Vec::new(),
        }
    }

    pub fn endl(&self) -> (r: &'static str)
        ensures
            r@ == endl_text(self.debug_info),
    {
        proof {
            reveal_strlit("");
            reveal_strlit("\n");
        }
        if self.debug_info {
            ""
        } else {
            "\n"
        }
    }

    /// Appends the current indentation (nothing in debug mode).
    pub fn indent(&mut self)
        ensures
            FunctionWriter::same_but_bodies(*final(self), *old(self)),
            old(self).debug_info ==> final(self).fn_bodies@ == old(self).fn_bodies@,
            !old(self).debug_info ==> final(self).fn_bodies@ == old(self).fn_bodies@ + spaces(
                old(self).indent as int,
            ),
    {
        if !self.debug_info {
            let n = self.indent;
            append_spaces(&mut self.fn_bodies, n);
        }
    }

    /// Appends the C operator of a binary operation.
    pub fn write_binop(&mut self, op: BinOp)
        ensures
            FunctionWriter::same_but_bodies(*final(self), *old(self)),
            final(self).fn_bodies@ == old(self).fn_bodies@ + binop_token(op),
    {
        self.fn_bodies.append(binop_str(op));
    }

    /// Appends the C operator of a unary operation.
    pub fn write_unop(&mut self, op: UnOp)
        ensures
            FunctionWriter::same_but_bodies(*final(self), *old(self)),
            final(self).fn_bodies@ == old(self).fn_bodies@ + unop_token(op),
    {
        self.fn_bodies.append(unop_str(op));
    }

    /// Appends the C rendering of a string literal.
    pub fn write_string_literal(&mut self, bytes: &Vec<u8>)
        ensures
            FunctionWriter::same_but_bodies(*final(self), *old(self)),
            final(self).fn_bodies@ == old(self).fn_bodies@ + string_literal_text(bytes@),
    {
        emit_string_literal(&mut self.fn_bodies, bytes);
    }

    /// Appends the C rendering of a constant value.
    pub fn write_const_val(&mut self, v: &Value) -> (r: Result<(), ErrorKind>)
        ensures
            FunctionWriter::same_but_bodies(*final(self), *old(self)),
            match r {
                Ok(()) => !(v matches Value::Str(_, _)) && !(v matches Value::FunctionPointer(_))
                    && final(self).fn_bodies@ == old(self).fn_bodies@ + const_val_text(*v),
                Err(k) => k == ErrorKind::InternalError && final(self).fn_bodies@ == old(
                    self,
                ).fn_bodies@ && ((v matches Value::Str(_, _)) || (
                v matches Value::FunctionPointer(_))),
            },
    {
        emit_const_val(&mut self.fn_bodies, v)
    }

    /// Concatenates declarations and bodies into the output buffer.
    pub fn write(&self, buf: &mut String)
        ensures
            final(buf)@ == old(buf)@ + self.fn_decls@ + self.fn_bodies@,
    {
        buf.append(self.fn_decls.as_str());
        buf.append(self.fn_bodies.as_str());
    }
}


/// Whether an expression can be emitted: every type it mentions is interned
/// and of known size, every item reference is in range, and no
/// const-evaluation-only intrinsic is left in the tree.
pub open spec fn expr_emittable(ir: IrCtx, e: Expr) -> bool
    decreases e, 0int, 0int,
{
    &&& (e.ty as int) < ir.types@.len()
    &&& zst_spec(ir, e.ty as int) is Ok
    &&& match e.kind {
        ExprKind::Block(stmts, ret) => stmts_emittable_n(ir, stmts@, stmts@.len() as int)
            && expr_emittable(ir, *ret),
        ExprKind::Binary(_, a, b) => expr_emittable(ir, *a) && expr_emittable(ir, *b),
        ExprKind::AssignOp(_, a, b) => expr_emittable(ir, *a) && expr_emittable(ir, *b),
        ExprKind::Call(callee, args) => expr_emittable(ir, *callee) && exprs_emittable_n(
            ir,
            args@,
            args@.len() as int,
        ),
        ExprKind::Fn(item) => (item as int) < ir.items@.len(),
        ExprKind::Ref(inner) => expr_emittable(ir, *inner),
        ExprKind::Deref(inner) => expr_emittable(ir, *inner),
        ExprKind::Return(inner) => expr_emittable(ir, *inner),
        ExprKind::Goto(_) => true,
        ExprKind::Unary(_, inner) => expr_emittable(ir, *inner),
        ExprKind::Assign(a, b) => expr_emittable(ir, *a) && expr_emittable(ir, *b),
        ExprKind::Index(a, b) => expr_emittable(ir, *a) && expr_emittable(ir, *b),
        ExprKind::Local(_) => true,
        ExprKind::Static(item) => (item as int) < ir.items@.len(),
        ExprKind::Const(item) => (item as int) < ir.items@.len(),
        ExprKind::Literal(v) => match v {
            Value::Str(bytes, offset) => offset <= bytes@.len(),
            Value::FunctionPointer(item) => (item as int) < ir.items@.len(),
            _ => true,
        },
        ExprKind::Field(inner, _) => expr_emittable(ir, *inner),
        ExprKind::TupleIndex(inner, _) => expr_emittable(ir, *inner),
        ExprKind::If(c, t, f, _) => expr_emittable(ir, *c) && expr_emittable(ir, *t)
            && expr_emittable(ir, *f),
        ExprKind::Cast(inner) => expr_emittable(ir, *inner),
        ExprKind::Intrinsic(kind) => match kind {
            IntrinsicValueKind::SizeOfLike(_, typ) => (typ as int) < ir.types@.len(),
            IntrinsicValueKind::FunctionLike(_) => true,
            IntrinsicValueKind::ConstLike(_) => true,
            IntrinsicValueKind::Asm(_) => true,
            IntrinsicValueKind::Uninitialized => true,
            IntrinsicValueKind::Dangling(_) => true,
            IntrinsicValueKind::InConstContext => true,
            IntrinsicValueKind::ConstPanic => false,
            IntrinsicValueKind::ConstAlloc => false,
            IntrinsicValueKind::ConstWrite => false,
            IntrinsicValueKind::ConstFree => false,
        },
        ExprKind::Array(elems) => exprs_emittable_n(ir, elems@, elems@.len() as int),
        ExprKind::Tuple(inits) => tuple_inits_emittable_n(ir, inits@, inits@.len() as int),
        ExprKind::Struct(inits) => struct_inits_emittable_n(ir, inits@, inits@.len() as int),
        ExprKind::Unreachable => true,
        ExprKind::Void => true,
    }
}

pub open spec fn stmt_emittable(ir: IrCtx, st: Statement) -> bool
    decreases st, 1int, 0int,
{
    match st {
        Statement::Expression(e) => expr_emittable(ir, e),
        Statement::Label(_) => true,
    }
}

pub open spec fn stmts_emittable_n(ir: IrCtx, s: Seq<Statement>, n: int) -> bool
    decreases s, 2int, n,
{
    if n <= 0 || n > s.len() {
        true
    } else {
        stmts_emittable_n(ir, s, n - 1) && stmt_emittable(ir, s[n - 1])
    }
}

pub open spec fn exprs_emittable_n(ir: IrCtx, s: Seq<Expr>, n: int) -> bool
    decreases s, 2int, n,
{
    if n <= 0 || n > s.len() {
        true
    } else {
        exprs_emittable_n(ir, s, n - 1) && expr_emittable(ir, s[n - 1])
    }
}

pub open spec fn tuple_inits_emittable_n(ir: IrCtx, s: Seq<TupleInit>, n: int) -> bool
    decreases s, 2int, n,
{
    if n <= 0 || n > s.len() {
        true
    } else {
        tuple_inits_emittable_n(ir, s, n - 1) && expr_emittable(ir, s[n - 1].value)
    }
}

pub open spec fn struct_inits_emittable_n(ir: IrCtx, s: Seq<StructInit>, n: int) -> bool
    decreases s, 2int, n,
{
    if n <= 0 || n > s.len() {
        true
    } else {
        struct_inits_emittable_n(ir, s, n - 1) && expr_emittable(ir, s[n - 1].value)
    }
}

pub proof fn lemma_stmts_not_emittable(ir: IrCtx, s: Seq<Statement>, i: int, n: int)
    requires
        0 <= i < n <= s.len(),
        !stmt_emittable(ir, s[i]),
    ensures
        !stmts_emittable_n(ir, s, n),
    decreases n,
{
    if n - 1 > i {
        lemma_stmts_not_emittable(ir, s, i, n - 1);
    }
}

pub proof fn lemma_exprs_not_emittable(ir: IrCtx, s: Seq<Expr>, i: int, n: int)
    requires
        0 <= i < n <= s.len(),
        !expr_emittable(ir, s[i]),
    ensures
        !exprs_emittable_n(ir, s, n),
    decreases n,
{
    if n - 1 > i {
        lemma_exprs_not_emittable(ir, s, i, n - 1);
    }
}

pub proof fn lemma_tuple_inits_not_emittable(ir: IrCtx, s: Seq<TupleInit>, i: int, n: int)
    requires
        0 <= i < n <= s.len(),
        !expr_emittable(ir, s[i].value),
    ensures
        !tuple_inits_emittable_n(ir, s, n),
    decreases n,
{
    if n - 1 > i {
        lemma_tuple_inits_not_emittable(ir, s, i, n - 1);
    }
}

pub proof fn lemma_struct_inits_not_emittable(ir: IrCtx, s: Seq<StructInit>, i: int, n: int)
    requires
        0 <= i < n <= s.len(),
        !expr_emittable(ir, s[i].value),
    ensures
        !struct_inits_emittable_n(ir, s, n),
    decreases n,
{
    if n - 1 > i {
        lemma_struct_inits_not_emittable(ir, s, i, n - 1);
    }
}

/// Checks that an expression is fit for emission (see `expr_emittable`).
pub fn validate_expr(ir: &IrCtx, e: &Expr) -> (r: bool)
    requires
        ir.wf(),
    ensures
        r == expr_emittable(*ir, *e),
    decreases *e,
{
    if e.ty >= ir.types.len() {
        return false;
    }
    if ir.is_zero_sized(e.ty).is_err() {
        return false;
    }
    match &e.kind {
        ExprKind::Block(stmts, ret) => {
            let n = stmts.len();
            let mut i: usize = 0;
            while i < n
                invariant
                    ir.wf(),
                    n == stmts@.len(),
                    i <= n,
                    stmts_emittable_n(*ir, stmts@, i as int),
                    e.kind matches ExprKind::Block(s2, _) && s2 == *stmts,
                decreases n - i,
            {
                proof {
                    assert(decreases_to!(*e => e.kind));
                    assert(decreases_to!(e.kind => stmts@[i as int]));
                }
                if !validate_stmt(ir, &stmts[i]) {
                    proof {
                        lemma_stmts_not_emittable(*ir, stmts@, i as int, n as int);
                    }
                    return false;
                }
                i = i + 1;
            }
            validate_expr(ir, &**ret)
        },
        ExprKind::Binary(_, a, b) => validate_expr(ir, &**a) && validate_expr(ir, &**b),
        ExprKind::AssignOp(_, a, b) => validate_expr(ir, &**a) && validate_expr(ir, &**b),
        ExprKind::Call(callee, args) => {
            if !validate_expr(ir, &**callee) {
                return false;
            }
            let n = args.len();
            let mut i: usize = 0;
            while i < n
                invariant
                    ir.wf(),
                    n == args@.len(),
                    i <= n,
                    exprs_emittable_n(*ir, args@, i as int),
                    e.kind matches ExprKind::Call(_, a2) && a2 == *args,
                decreases n - i,
            {
                proof {
                    assert(decreases_to!(*e => e.kind));
                    assert(decreases_to!(e.kind => args@[i as int]));
                }
                if !validate_expr(ir, &args[i]) {
                    proof {
                        lemma_exprs_not_emittable(*ir, args@, i as int, n as int);
                    }
                    return false;
                }
                i = i + 1;
            }
            true
        },
        ExprKind::Fn(item) => *item < ir.items.len(),
        ExprKind::Ref(inner) => validate_expr(ir, &**inner),
        ExprKind::Deref(inner) => validate_expr(ir, &**inner),
        ExprKind::Return(inner) => validate_expr(ir, &**inner),
        ExprKind::Goto(_) => true,
        ExprKind::Unary(_, inner) => validate_expr(ir, &**inner),
        ExprKind::Assign(a, b) => validate_expr(ir, &**a) && validate_expr(ir, &**b),
        ExprKind::Index(a, b) => validate_expr(ir, &**a) && validate_expr(ir, &**b),
        ExprKind::Local(_) => true,
        ExprKind::Static(item) => *item < ir.items.len(),
        ExprKind::Const(item) => *item < ir.items.len(),
        ExprKind::Literal(v) => match v {
            Value::Str(bytes, offset) => *offset <= bytes.len(),
            Value::FunctionPointer(item) => *item < ir.items.len(),
            _ => true,
        },
        ExprKind::Field(inner, _) => validate_expr(ir, &**inner),
        ExprKind::TupleIndex(inner, _) => validate_expr(ir, &**inner),
        ExprKind::If(c, t, f, _) => validate_expr(ir, &**c) && validate_expr(ir, &**t)
            && validate_expr(ir, &**f),
        ExprKind::Cast(inner) => validate_expr(ir, &**inner),
        ExprKind::Intrinsic(kind) => match kind {
            IntrinsicValueKind::SizeOfLike(_, typ) => *typ < ir.types.len(),
            IntrinsicValueKind::FunctionLike(_) => true,
            IntrinsicValueKind::ConstLike(_) => true,
            IntrinsicValueKind::Asm(_) => true,
            IntrinsicValueKind::Uninitialized => true,
            IntrinsicValueKind::Dangling(_) => true,
            IntrinsicValueKind::InConstContext => true,
            IntrinsicValueKind::ConstPanic => false,
            IntrinsicValueKind::ConstAlloc => false,
            IntrinsicValueKind::ConstWrite => false,
            IntrinsicValueKind::ConstFree => false,
        },
        ExprKind::Array(elems) => {
            let n = elems.len();
            let mut i: usize = 0;
            while i < n
                invariant
                    ir.wf(),
                    n == elems@.len(),
                    i <= n,
                    exprs_emittable_n(*ir, elems@, i as int),
                    e.kind matches ExprKind::Array(a2) && a2 == *elems,
                decreases n - i,
            {
                proof {
                    assert(decreases_to!(*e => e.kind));
                    assert(decreases_to!(e.kind => elems@[i as int]));
                }
                if !validate_expr(ir, &elems[i]) {
                    proof {
                        lemma_exprs_not_emittable(*ir, elems@, i as int, n as int);
                    }
                    return false;
                }
                i = i + 1;
            }
            true
        },
        ExprKind::Tuple(inits) => {
            let n = inits.len();
            let mut i: usize = 0;
            while i < n
                invariant
                    ir.wf(),
                    n == inits@.len(),
                    i <= n,
                    tuple_inits_emittable_n(*ir, inits@, i as int),
                    e.kind matches ExprKind::Tuple(a2) && a2 == *inits,
                decreases n - i,
            {
                proof {
                    assert(decreases_to!(*e => e.kind));
                    assert(decreases_to!(e.kind => inits@[i as int]));
                    assert(decreases_to!(inits@[i as int] => inits@[i as int].value));
                }
                if !validate_expr(ir, &inits[i].value) {
                    proof {
                        lemma_tuple_inits_not_emittable(*ir, inits@, i as int, n as int);
                    }
                    return false;
                }
                i = i + 1;
            }
            true
        },
        ExprKind::Struct(inits) => {
            let n = inits.len();
            let mut i: usize = 0;
            while i < n
                invariant
                    ir.wf(),
                    n == inits@.len(),
                    i <= n,
                    struct_inits_emittable_n(*ir, inits@, i as int),
                    e.kind matches ExprKind::Struct(a2) && a2 == *inits,
                decreases n - i,
            {
                proof {
                    assert(decreases_to!(*e => e.kind));
                    assert(decreases_to!(e.kind => inits@[i as int]));
                    assert(decreases_to!(inits@[i as int] => inits@[i as int].value));
                }
                if !validate_expr(ir, &inits[i].value) {
                    proof {
                        lemma_struct_inits_not_emittable(*ir, inits@, i as int, n as int);
                    }
                    return false;
                }
                i = i + 1;
            }
            true
        },
        ExprKind::Unreachable => true,
        ExprKind::Void => true,
    }
}

/// Checks that a statement is fit for emission.
pub fn validate_stmt(ir: &IrCtx, st: &Statement) -> (r: bool)
    requires
        ir.wf(),
    ensures
        r == stmt_emittable(*ir, *st),
    decreases *st,
{
    match st {
        Statement::Expression(e) => validate_expr(ir, e),
        Statement::Label(_) => true,
    }
}

/// Indentation as emitted: suppressed in debug mode.
pub open spec fn spaces_d(dbg: bool, ind: int) -> Seq<char> {
    if dbg {
        Seq::empty()
    } else {
        spaces(ind)
    }
}

/// The indentation level of a nested block, two columns deeper.
pub open spec fn bump_spec(ind: int) -> int {
    if ind + 2 <= usize::MAX {
        ind + 2
    } else {
        ind
    }
}

fn bump(ind: usize) -> (r: usize)
    ensures
        r as int == bump_spec(ind as int),
{
    if ind <= usize::MAX - 2 {
        ind + 2
    } else {
        ind
    }
}

/// The C text of an expression.  `ind` is the current indentation, `cci`
/// says whether the expression stands in a top-level constant initializer
/// (where C forbids compound-literal casts), `bare` whether it stands in
/// statement position, and `dbg` whether debug layout is in effect.
pub open spec fn emit_expr(
    ir: IrCtx,
    names: Seq<(usize, CName)>,
    e: Expr,
    ind: int,
    cci: bool,
    bare: bool,
    dbg: bool,
) -> Seq<char>
    decreases e, 0int, 0int,
{
    let body = match e.kind {
        ExprKind::Binary(op, lhs, rhs) => "("@ + type_text(ir.types@[e.ty as int], e.ty as int)
            + ")("@ + emit_expr(ir, names, *lhs, ind, cci, false, dbg) + binop_token(op)
            + emit_expr(ir, names, *rhs, ind, cci, false, dbg) + ")"@,
        ExprKind::AssignOp(op, lhs, rhs) => emit_expr(ir, names, *lhs, ind, cci, false, dbg)
            + binop_token(op) + "="@ + emit_expr(ir, names, *rhs, ind, cci, false, dbg),
        ExprKind::Call(callee, args) => emit_expr(ir, names, *callee, ind, cci, false, dbg) + "("@
            + emit_call_args_n(ir, names, args@, args@.len() as int, ind, cci, dbg).0 + ")"@,
        ExprKind::Fn(item) => name_text(names, ir.items@[item as int].id.id),
        ExprKind::Ref(inner) => "(&"@ + emit_expr(ir, names, *inner, ind, cci, false, dbg) + ")"@,
        ExprKind::Deref(inner) => "(*"@ + emit_expr(ir, names, *inner, ind, cci, false, dbg)
            + ")"@,
        ExprKind::Unary(op, inner) => "("@ + type_text(ir.types@[e.ty as int], e.ty as int)
            + ")("@ + unop_token(op) + emit_expr(ir, names, *inner, ind, cci, false, dbg) + ")"@,
        ExprKind::Assign(lhs, rhs) => emit_expr(ir, names, *lhs, ind, cci, false, dbg) + "="@
            + emit_expr(ir, names, *rhs, ind, cci, false, dbg),
        ExprKind::Index(lhs, rhs) => emit_expr(ir, names, *lhs, ind, cci, false, dbg) + (if ir.types@[lhs.ty as int] matches Ty::Array(_, _) {
            ".__data"@
        } else {
            Seq::empty()
        }) + "["@ + emit_expr(ir, names, *rhs, ind, cci, false, dbg) + "]"@,
        ExprKind::Local(id) => name_text(names, id.id),
        ExprKind::Static(item) => name_text(names, ir.items@[item as int].id.id),
        ExprKind::Const(item) => name_text(names, ir.items@[item as int].id.id),
        ExprKind::Block(stmts, ret) => if bare {
            emit_stmts_n(ir, names, stmts@, stmts@.len() as int, ind, cci, dbg) + (if !(ret.kind
                is Void) {
                spaces_d(dbg, ind) + emit_expr(ir, names, *ret, ind, cci, true, dbg)
            } else {
                Seq::empty()
            })
        } else {
            "__extension__({"@ + endl_text(dbg) + emit_stmts_n(
                ir,
                names,
                stmts@,
                stmts@.len() as int,
                ind,
                cci,
                dbg,
            ) + (if !(ret.kind is Void) {
                spaces_d(dbg, ind) + emit_expr(ir, names, *ret, ind, cci, false, dbg) + ";"@
                    + endl_text(dbg)
            } else {
                Seq::empty()
            }) + "})"@
        },
        ExprKind::Literal(v) => match v {
            Value::Str(bytes, offset) => string_literal_text(bytes@.skip(offset as int)),
            Value::FunctionPointer(item) => "("@ + type_text(ir.types@[e.ty as int], e.ty as int)
                + ")"@ + name_text(names, ir.items@[item as int].id.id),
            _ => "(("@ + type_text(ir.types@[e.ty as int], e.ty as int) + ")"@ + const_val_text(v)
                + ")"@,
        },
        ExprKind::Field(inner, field) => emit_expr(ir, names, *inner, ind, cci, false, dbg) + "."@
            + name_text(names, field.id),
        ExprKind::TupleIndex(inner, idx) => emit_expr(ir, names, *inner, ind, cci, false, dbg)
            + "._"@ + dec_digits(idx as nat),
        ExprKind::If(cond, then, els, _) => if zst_spec(ir, e.ty as int) == Ok::<bool, ErrorKind>(
            true,
        ) {
            "if ("@ + emit_expr(ir, names, *cond, ind, cci, false, dbg) + ") {"@ + endl_text(dbg)
                + emit_expr(ir, names, *then, bump_spec(ind), cci, true, dbg) + endl_text(dbg)
                + spaces_d(dbg, ind) + (if (els.kind is Void) || (els.kind is Unreachable) {
                Seq::empty()
            } else {
                "} else {"@ + endl_text(dbg) + emit_expr(
                    ir,
                    names,
                    *els,
                    bump_spec(ind),
                    cci,
                    true,
                    dbg,
                ) + endl_text(dbg) + spaces_d(dbg, ind)
            }) + "}"@
        } else {
            "("@ + emit_expr(ir, names, *cond, ind, cci, false, dbg) + "?"@ + emit_expr(
                ir,
                names,
                *then,
                ind,
                cci,
                false,
                dbg,
            ) + ":"@ + emit_expr(ir, names, *els, ind, cci, false, dbg) + ")"@
        },
        ExprKind::Cast(inner) => "(("@ + type_text(ir.types@[e.ty as int], e.ty as int) + ")"@
            + emit_expr(ir, names, *inner, ind, cci, false, dbg) + ")"@,
        ExprKind::Goto(label) => "goto "@ + name_text(names, label.id),
        ExprKind::Return(inner) => "return "@ + emit_expr(ir, names, *inner, ind, cci, false, dbg),
        ExprKind::Unreachable => "__builtin_unreachable()"@,
        ExprKind::Intrinsic(kind) => match kind {
            IntrinsicValueKind::SizeOfLike(n, typ) => n@ + "("@ + type_text(
                ir.types@[typ as int],
                typ as int,
            ) + ")"@,
            IntrinsicValueKind::FunctionLike(n) => n@,
            IntrinsicValueKind::ConstLike(n) => n@,
            IntrinsicValueKind::Asm(n) => "asm volatile(\""@ + n@ + "\")"@,
            IntrinsicValueKind::Uninitialized => "({ "@ + type_text(
                ir.types@[e.ty as int],
                e.ty as int,
            ) + " __discard; __discard; })"@,
            IntrinsicValueKind::Dangling(align) => "(("@ + type_text(
                ir.types@[e.ty as int],
                e.ty as int,
            ) + ")"@ + dec_digits(align as nat) + ")"@,
            IntrinsicValueKind::InConstContext => "("@ + type_text(
                ir.types@[e.ty as int],
                e.ty as int,
            ) + ")0"@,
            _ => Seq::empty(),
        },
        ExprKind::Array(elems) => (if !cci {
            "("@ + type_text(ir.types@[e.ty as int], e.ty as int) + ")"@
        } else {
            Seq::empty()
        }) + "{.__data={"@ + endl_text(dbg) + emit_array_elems_n(
            ir,
            names,
            elems@,
            elems@.len() as int,
            ind,
            cci,
            dbg,
        ) + spaces_d(dbg, ind) + "}}"@,
        ExprKind::Tuple(inits) => (if !cci {
            "("@ + type_text(ir.types@[e.ty as int], e.ty as int) + ")"@
        } else {
            Seq::empty()
        }) + "{"@ + emit_tuple_inits_n(ir, names, inits@, inits@.len() as int, ind, cci, dbg)
            + "}"@,
        ExprKind::Struct(inits) => (if !cci {
            "("@ + type_text(ir.types@[e.ty as int], e.ty as int) + ")"@
        } else {
            Seq::empty()
        }) + "{"@ + emit_struct_inits_n(ir, names, inits@, inits@.len() as int, ind, cci, dbg)
            + "}"@,
        ExprKind::Void => Seq::empty(),
    };
    body + (if bare {
        ";"@
    } else {
        Seq::empty()
    })
}

/// The C text of a statement: indented expression or label.  Statements
/// whose expression is the void expression produce nothing.
pub open spec fn emit_stmt(
    ir: IrCtx,
    names: Seq<(usize, CName)>,
    st: Statement,
    ind: int,
    cci: bool,
    dbg: bool,
) -> Seq<char>
    decreases st, 1int, 0int,
{
    match st {
        Statement::Expression(e) => if e.kind is Void {
            Seq::empty()
        } else {
            spaces_d(dbg, ind) + emit_expr(ir, names, e, ind, cci, false, dbg) + ";"@ + endl_text(
                dbg,
            )
        },
        Statement::Label(id) => spaces_d(dbg, ind) + name_text(names, id.id) + ": ;"@ + endl_text(
            dbg,
        ),
    }
}

pub open spec fn emit_stmts_n(
    ir: IrCtx,
    names: Seq<(usize, CName)>,
    s: Seq<Statement>,
    n: int,
    ind: int,
    cci: bool,
    dbg: bool,
) -> Seq<char>
    decreases s, 2int, n,
{
    if n <= 0 || n > s.len() {
        Seq::empty()
    } else {
        emit_stmts_n(ir, names, s, n - 1, ind, cci, dbg) + emit_stmt(
            ir,
            names,
            s[n - 1],
            ind,
            cci,
            dbg,
        )
    }
}

/// The text of the first `n` call arguments, zero-sized arguments elided,
/// and how many of them were printed (for comma placement).
pub open spec fn emit_call_args_n(
    ir: IrCtx,
    names: Seq<(usize, CName)>,
    s: Seq<Expr>,
    n: int,
    ind: int,
    cci: bool,
    dbg: bool,
) -> (Seq<char>, int)
    decreases s, 2int, n,
{
    if n <= 0 || n > s.len() {
        (Seq::empty(), 0)
    } else {
        let prev = emit_call_args_n(ir, names, s, n - 1, ind, cci, dbg);
        if zst_spec(ir, s[n - 1].ty as int) == Ok::<bool, ErrorKind>(true) {
            prev
        } else {
            (
                prev.0 + (if prev.1 > 0 {
                    ", "@
                } else {
                    Seq::empty()
                }) + emit_expr(ir, names, s[n - 1], ind, cci, false, dbg),
                prev.1 + 1,
            )
        }
    }
}

pub open spec fn emit_array_elems_n(
    ir: IrCtx,
    names: Seq<(usize, CName)>,
    s: Seq<Expr>,
    n: int,
    ind: int,
    cci: bool,
    dbg: bool,
) -> Seq<char>
    decreases s, 2int, n,
{
    if n <= 0 || n > s.len() {
        Seq::empty()
    } else {
        emit_array_elems_n(ir, names, s, n - 1, ind, cci, dbg) + spaces_d(dbg, ind) + emit_expr(
            ir,
            names,
            s[n - 1],
            ind,
            cci,
            false,
            dbg,
        ) + ","@ + endl_text(dbg)
    }
}

/// Tuple initializers, zero-sized fields elided.
pub open spec fn emit_tuple_inits_n(
    ir: IrCtx,
    names: Seq<(usize, CName)>,
    s: Seq<TupleInit>,
    n: int,
    ind: int,
    cci: bool,
    dbg: bool,
) -> Seq<char>
    decreases s, 2int, n,
{
    if n <= 0 || n > s.len() {
        Seq::empty()
    } else {
        emit_tuple_inits_n(ir, names, s, n - 1, ind, cci, dbg) + (if zst_spec(
            ir,
            s[n - 1].value.ty as int,
        ) == Ok::<bool, ErrorKind>(true) {
            Seq::empty()
        } else {
            "._"@ + dec_digits(s[n - 1].index as nat) + "="@ + emit_expr(
                ir,
                names,
                s[n - 1].value,
                ind,
                cci,
                false,
                dbg,
            ) + ","@
        })
    }
}

/// Struct initializers, zero-sized fields elided.
pub open spec fn emit_struct_inits_n(
    ir: IrCtx,
    names: Seq<(usize, CName)>,
    s: Seq<StructInit>,
    n: int,
    ind: int,
    cci: bool,
    dbg: bool,
) -> Seq<char>
    decreases s, 2int, n,
{
    if n <= 0 || n > s.len() {
        Seq::empty()
    } else {
        emit_struct_inits_n(ir, names, s, n - 1, ind, cci, dbg) + (if zst_spec(
            ir,
            s[n - 1].value.ty as int,
        ) == Ok::<bool, ErrorKind>(true) {
            Seq::empty()
        } else {
            "."@ + name_text(names, s[n - 1].field.id) + "="@ + emit_expr(
                ir,
                names,
                s[n - 1].value,
                ind,
                cci,
                false,
                dbg,
            ) + ","@
        })
    }
}

/// Appends the C text of an expression (see `emit_expr`).
pub fn emit_expr_to(
    ir: &IrCtx,
    cg: &CodegenCtx,
    buf: &mut String,
    e: &Expr,
    ind: usize,
    cci: bool,
    bare: bool,
    dbg: bool,
)
    requires
        ir.wf(),
        expr_emittable(*ir, *e),
    ensures
        final(buf)@ == old(buf)@ + emit_expr(*ir, cg.names@, *e, ind as int, cci, bare, dbg),
    decreases *e, 2int,
{
    match &e.kind {
        ExprKind::Binary(_, _, _) => emit_binary_to(ir, cg, buf, e, ind, cci, bare, dbg),
        ExprKind::AssignOp(_, _, _) => emit_assign_op_to(ir, cg, buf, e, ind, cci, bare, dbg),
        ExprKind::Assign(_, _) => emit_assign_to(ir, cg, buf, e, ind, cci, bare, dbg),
        ExprKind::Call(_, _) => emit_call_to(ir, cg, buf, e, ind, cci, bare, dbg),
        ExprKind::Array(_) => emit_array_to(ir, cg, buf, e, ind, cci, bare, dbg),
        ExprKind::Tuple(_) => emit_tuple_to(ir, cg, buf, e, ind, cci, bare, dbg),
        ExprKind::Struct(_) => emit_struct_to(ir, cg, buf, e, ind, cci, bare, dbg),
        ExprKind::Block(_, _) => emit_block_to(ir, cg, buf, e, ind, cci, bare, dbg),
        ExprKind::If(_, _, _, _) => emit_if_to(ir, cg, buf, e, ind, cci, bare, dbg),
        ExprKind::Ref(_) => emit_wrap_to(ir, cg, buf, e, ind, cci, bare, dbg),
        ExprKind::Deref(_) => emit_wrap_to(ir, cg, buf, e, ind, cci, bare, dbg),
        ExprKind::Unary(_, _) => emit_wrap_to(ir, cg, buf, e, ind, cci, bare, dbg),
        ExprKind::Field(_, _) => emit_access_to(ir, cg, buf, e, ind, cci, bare, dbg),
        ExprKind::TupleIndex(_, _) => emit_access_to(ir, cg, buf, e, ind, cci, bare, dbg),
        ExprKind::Cast(_) => emit_wrap_to(ir, cg, buf, e, ind, cci, bare, dbg),
        ExprKind::Return(_) => emit_wrap_to(ir, cg, buf, e, ind, cci, bare, dbg),
        ExprKind::Index(_, _) => emit_access_to(ir, cg, buf, e, ind, cci, bare, dbg),
        ExprKind::Literal(_) => emit_literal_to(ir, cg, buf, e, ind, cci, bare, dbg),
        ExprKind::Intrinsic(_) => emit_intrinsic_to(ir, cg, buf, e, ind, cci, bare, dbg),
        ExprKind::Fn(_) => emit_atom_to(ir, cg, buf, e, ind, cci, bare, dbg),
        ExprKind::Local(_) => emit_atom_to(ir, cg, buf, e, ind, cci, bare, dbg),
        ExprKind::Static(_) => emit_atom_to(ir, cg, buf, e, ind, cci, bare, dbg),
        ExprKind::Const(_) => emit_atom_to(ir, cg, buf, e, ind, cci, bare, dbg),
        ExprKind::Goto(_) => emit_atom_to(ir, cg, buf, e, ind, cci, bare, dbg),
        ExprKind::Unreachable => emit_atom_to(ir, cg, buf, e, ind, cci, bare, dbg),
        ExprKind::Void => emit_atom_to(ir, cg, buf, e, ind, cci, bare, dbg),
    }
}

/// One group of the expression emitter (see `emit_expr_to`).
#[verifier::rlimit(100)]
pub fn emit_atom_to(
    ir: &IrCtx,
    cg: &CodegenCtx,
    buf: &mut String,
    e: &Expr,
    ind: usize,
    cci: bool,
    bare: bool,
    dbg: bool,
)
    requires
        ir.wf(),
        expr_emittable(*ir, *e),
        (e.kind matches ExprKind::Fn(_)) || (e.kind matches ExprKind::Local(_)) || (e.kind matches ExprKind::Static(_)) || (e.kind matches ExprKind::Const(_)) || (e.kind matches ExprKind::Goto(_)) || (e.kind is Unreachable) || (e.kind is Void),
    ensures
        final(buf)@ == old(buf)@ + emit_expr(*ir, cg.names@, *e, ind as int, cci, bare, dbg),
    decreases *e, 0int,
{
    match &e.kind {
        ExprKind::Fn(item) => {
            buf.append(cg.get_name(ir.items[*item].id.id).as_str());
        },
        ExprKind::Local(id) => {
            buf.append(cg.get_name(id.id).as_str());
        },
        ExprKind::Static(item) => {
            buf.append(cg.get_name(ir.items[*item].id.id).as_str());
        },
        ExprKind::Const(item) => {
            buf.append(cg.get_name(ir.items[*item].id.id).as_str());
        },
        ExprKind::Goto(label) => {
            buf.append("goto ");
            buf.append(cg.get_name(label.id).as_str());
        },
        ExprKind::Unreachable => {
            buf.append("__builtin_unreachable()");
        },
        ExprKind::Void => {},
        _ => {
            proof {
                assert(false);
            }
        },
    }
    if bare {
        buf.append(";");
    }
}

/// One group of the expression emitter (see `emit_expr_to`).
#[verifier::rlimit(100)]
pub fn emit_literal_to(
    ir: &IrCtx,
    cg: &CodegenCtx,
    buf: &mut String,
    e: &Expr,
    ind: usize,
    cci: bool,
    bare: bool,
    dbg: bool,
)
    requires
        ir.wf(),
        expr_emittable(*ir, *e),
        e.kind matches ExprKind::Literal(_),
    ensures
        final(buf)@ == old(buf)@ + emit_expr(*ir, cg.names@, *e, ind as int, cci, bare, dbg),
    decreases *e, 0int,
{
    match &e.kind {
        ExprKind::Literal(v) => {
            match v {
                Value::Str(bytes, offset) => {
                    let mut suffix: Vec<u8> = Vec::new();
                    let len = bytes.len();
                    let mut k: usize = *offset;
                    while k < len
                        invariant
                            len == bytes@.len(),
                            *offset <= k <= len,
                            suffix@ == bytes@.subrange(*offset as int, k as int),
                        decreases len - k,
                    {
                        suffix.push(bytes[k]);
                        proof {
                            assert(suffix@ =~= bytes@.subrange(*offset as int, k + 1));
                        }
                        k = k + 1;
                    }
                    proof {
                        assert(suffix@ =~= bytes@.skip(*offset as int));
                    }
                    emit_string_literal(buf, &suffix);
                },
                Value::FunctionPointer(item) => {
                    buf.append("(");
                    buf.append(get_type(ir, e.ty).as_str());
                    buf.append(")");
                    buf.append(cg.get_name(ir.items[*item].id.id).as_str());
                },
                other => {
                    buf.append("((");
                    buf.append(get_type(ir, e.ty).as_str());
                    buf.append(")");
                    let res = emit_const_val(buf, other);
                    proof {
                        assert(res is Ok);
                    }
                    buf.append(")");
                },
            }
        },
        _ => {
            proof {
                assert(false);
            }
        },
    }
    if bare {
        buf.append(";");
    }
}

/// One group of the expression emitter (see `emit_expr_to`).
#[verifier::rlimit(100)]
pub fn emit_intrinsic_to(
    ir: &IrCtx,
    cg: &CodegenCtx,
    buf: &mut String,
    e: &Expr,
    ind: usize,
    cci: bool,
    bare: bool,
    dbg: bool,
)
    requires
        ir.wf(),
        expr_emittable(*ir, *e),
        e.kind matches ExprKind::Intrinsic(_),
    ensures
        final(buf)@ == old(buf)@ + emit_expr(*ir, cg.names@, *e, ind as int, cci, bare, dbg),
    decreases *e, 0int,
{
    match &e.kind {
        ExprKind::Intrinsic(kind) => {
            match kind {
                IntrinsicValueKind::SizeOfLike(n, typ) => {
                    buf.append(n.as_str());
                    buf.append("(");
                    buf.append(get_type(ir, *typ).as_str());
                    buf.append(")");
                },
                IntrinsicValueKind::FunctionLike(n) => {
                    buf.append(n.as_str());
                },
                IntrinsicValueKind::ConstLike(n) => {
                    buf.append(n.as_str());
                },
                IntrinsicValueKind::Asm(n) => {
                    buf.append("asm volatile(\"");
                    buf.append(n.as_str());
                    buf.append("\")");
                },
                IntrinsicValueKind::Uninitialized => {
                    buf.append("({ ");
                    buf.append(get_type(ir, e.ty).as_str());
                    buf.append(" __discard; __discard; })");
                },
                IntrinsicValueKind::Dangling(align) => {
                    buf.append("((");
                    buf.append(get_type(ir, e.ty).as_str());
                    buf.append(")");
                    buf.append(usize_dec(*align).as_str());
                    buf.append(")");
                },
                IntrinsicValueKind::InConstContext => {
                    buf.append("(");
                    buf.append(get_type(ir, e.ty).as_str());
                    buf.append(")0");
                },
                IntrinsicValueKind::ConstPanic => {
                    proof {
                        assert(false);
                    }
                },
                IntrinsicValueKind::ConstAlloc => {
                    proof {
                        assert(false);
                    }
                },
                IntrinsicValueKind::ConstWrite => {
                    proof {
                        assert(false);
                    }
                },
                IntrinsicValueKind::ConstFree => {
                    proof {
                        assert(false);
                    }
                },
            }
        },
        _ => {
            proof {
                assert(false);
            }
        },
    }
    if bare {
        buf.append(";");
    }
}

/// One group of the expression emitter (see `emit_expr_to`).
#[verifier::rlimit(100)]
#[verifier::spinoff_prover]
pub fn emit_wrap_to(
    ir: &IrCtx,
    cg: &CodegenCtx,
    buf: &mut String,
    e: &Expr,
    ind: usize,
    cci: bool,
    bare: bool,
    dbg: bool,
)
    requires
        ir.wf(),
        expr_emittable(*ir, *e),
        (e.kind matches ExprKind::Ref(_)) || (e.kind matches ExprKind::Deref(_)) || (e.kind matches ExprKind::Unary(_, _)) || (e.kind matches ExprKind::Cast(_)) || (e.kind matches ExprKind::Return(_)),
    ensures
        final(buf)@ == old(buf)@ + emit_expr(*ir, cg.names@, *e, ind as int, cci, bare, dbg),
    decreases *e, 0int,
{
    match &e.kind {
        ExprKind::Ref(inner) => {
            buf.append("(&");
            emit_expr_to(ir, cg, buf, &**inner, ind, cci, false, dbg);
            buf.append(")");
        },
        ExprKind::Deref(inner) => {
            buf.append("(*");
            emit_expr_to(ir, cg, buf, &**inner, ind, cci, false, dbg);
            buf.append(")");
        },
        ExprKind::Unary(op, inner) => {
            buf.append("(");
            buf.append(get_type(ir, e.ty).as_str());
            buf.append(")(");
            buf.append(unop_str(*op));
            emit_expr_to(ir, cg, buf, &**inner, ind, cci, false, dbg);
            buf.append(")");
        },
        ExprKind::Cast(inner) => {
            buf.append("((");
            buf.append(get_type(ir, e.ty).as_str());
            buf.append(")");
            emit_expr_to(ir, cg, buf, &**inner, ind, cci, false, dbg);
            buf.append(")");
        },
        ExprKind::Return(inner) => {
            buf.append("return ");
            emit_expr_to(ir, cg, buf, &**inner, ind, cci, false, dbg);
        },
        _ => {
            proof {
                assert(false);
            }
        },
    }
    if bare {
        buf.append(";");
    }
}

/// One group of the expression emitter (see `emit_expr_to`).
#[verifier::rlimit(100)]
pub fn emit_access_to(
    ir: &IrCtx,
    cg: &CodegenCtx,
    buf: &mut String,
    e: &Expr,
    ind: usize,
    cci: bool,
    bare: bool,
    dbg: bool,
)
    requires
        ir.wf(),
        expr_emittable(*ir, *e),
        (e.kind matches ExprKind::Field(_, _)) || (e.kind matches ExprKind::TupleIndex(_, _)) || (e.kind matches ExprKind::Index(_, _)),
    ensures
        final(buf)@ == old(buf)@ + emit_expr(*ir, cg.names@, *e, ind as int, cci, bare, dbg),
    decreases *e, 0int,
{
    match &e.kind {
        ExprKind::Field(inner, field) => {
            emit_expr_to(ir, cg, buf, &**inner, ind, cci, false, dbg);
            buf.append(".");
            buf.append(cg.get_name(field.id).as_str());
        },
        ExprKind::TupleIndex(inner, idx) => {
            emit_expr_to(ir, cg, buf, &**inner, ind, cci, false, dbg);
            buf.append("._");
            buf.append(usize_dec(*idx).as_str());
        },
        ExprKind::Index(lhs, rhs) => {
            emit_expr_to(ir, cg, buf, &**lhs, ind, cci, false, dbg);
            proof {
                assert((lhs.ty as int) < ir.types@.len()) by {
                    reveal_with_fuel(expr_emittable, 2);
                }
            }
            let is_array = match ir.types[lhs.ty] {
                Ty::Array(_, _) => true,
                _ => false,
            };
            if is_array {
                buf.append(".__data");
            }
            buf.append("[");
            emit_expr_to(ir, cg, buf, &**rhs, ind, cci, false, dbg);
            buf.append("]");
        },
        _ => {
            proof {
                assert(false);
            }
        },
    }
    if bare {
        buf.append(";");
    }
}

/// One group of the expression emitter (see `emit_expr_to`).
#[verifier::rlimit(100)]
pub fn emit_binary_to(
    ir: &IrCtx,
    cg: &CodegenCtx,
    buf: &mut String,
    e: &Expr,
    ind: usize,
    cci: bool,
    bare: bool,
    dbg: bool,
)
    requires
        ir.wf(),
        expr_emittable(*ir, *e),
        e.kind matches ExprKind::Binary(_, _, _),
    ensures
        final(buf)@ == old(buf)@ + emit_expr(*ir, cg.names@, *e, ind as int, cci, bare, dbg),
    decreases *e, 0int,
{
    match &e.kind {
        ExprKind::Binary(op, lhs, rhs) => {
            buf.append("(");
            buf.append(get_type(ir, e.ty).as_str());
            buf.append(")(");
            emit_expr_to(ir, cg, buf, &**lhs, ind, cci, false, dbg);
            buf.append(binop_str(*op));
            emit_expr_to(ir, cg, buf, &**rhs, ind, cci, false, dbg);
            buf.append(")");
        },
        _ => {
            proof {
                assert(false);
            }
        },
    }
    if bare {
        buf.append(";");
    }
}

/// One group of the expression emitter (see `emit_expr_to`).
#[verifier::rlimit(100)]
pub fn emit_assign_op_to(
    ir: &IrCtx,
    cg: &CodegenCtx,
    buf: &mut String,
    e: &Expr,
    ind: usize,
    cci: bool,
    bare: bool,
    dbg: bool,
)
    requires
        ir.wf(),
        expr_emittable(*ir, *e),
        e.kind matches ExprKind::AssignOp(_, _, _),
    ensures
        final(buf)@ == old(buf)@ + emit_expr(*ir, cg.names@, *e, ind as int, cci, bare, dbg),
    decreases *e, 0int,
{
    match &e.kind {
        ExprKind::AssignOp(op, lhs, rhs) => {
            emit_expr_to(ir, cg, buf, &**lhs, ind, cci, false, dbg);
            buf.append(binop_str(*op));
            buf.append("=");
            emit_expr_to(ir, cg, buf, &**rhs, ind, cci, false, dbg);
        },
        _ => {
            proof {
                assert(false);
            }
        },
    }
    if bare {
        buf.append(";");
    }
}

/// One group of the expression emitter (see `emit_expr_to`).
#[verifier::rlimit(100)]
pub fn emit_assign_to(
    ir: &IrCtx,
    cg: &CodegenCtx,
    buf: &mut String,
    e: &Expr,
    ind: usize,
    cci: bool,
    bare: bool,
    dbg: bool,
)
    requires
        ir.wf(),
        expr_emittable(*ir, *e),
        e.kind matches ExprKind::Assign(_, _),
    ensures
        final(buf)@ == old(buf)@ + emit_expr(*ir, cg.names@, *e, ind as int, cci, bare, dbg),
    decreases *e, 0int,
{
    match &e.kind {
        ExprKind::Assign(lhs, rhs) => {
            emit_expr_to(ir, cg, buf, &**lhs, ind, cci, false, dbg);
            buf.append("=");
            emit_expr_to(ir, cg, buf, &**rhs, ind, cci, false, dbg);
        },
        _ => {
            proof {
                assert(false);
            }
        },
    }
    if bare {
        buf.append(";");
    }
}

/// One group of the expression emitter (see `emit_expr_to`).
#[verifier::rlimit(100)]
pub fn emit_block_to(
    ir: &IrCtx,
    cg: &CodegenCtx,
    buf: &mut String,
    e: &Expr,
    ind: usize,
    cci: bool,
    bare: bool,
    dbg: bool,
)
    requires
        ir.wf(),
        expr_emittable(*ir, *e),
        e.kind matches ExprKind::Block(_, _),
    ensures
        final(buf)@ == old(buf)@ + emit_expr(*ir, cg.names@, *e, ind as int, cci, bare, dbg),
    decreases *e, 0int,
{
    match &e.kind {
        ExprKind::Block(stmts, ret) => {
            if !bare {
                buf.append("__extension__({");
                if !dbg {
                    buf.append("\n");
                }
            }
            proof {
                assert(decreases_to!(*e => e.kind));
                assert(decreases_to!(e.kind => *stmts));
                assert(decreases_to!(*stmts => stmts@));
            }
            emit_stmts_to(ir, cg, buf, stmts, ind, cci, dbg);
            if bare {
                if !ret.is_void() {
                    if !dbg {
                        append_spaces(buf, ind);
                    }
                    emit_expr_to(ir, cg, buf, &**ret, ind, cci, true, dbg);
                }
            } else {
                if !ret.is_void() {
                    if !dbg {
                        append_spaces(buf, ind);
                    }
                    emit_expr_to(ir, cg, buf, &**ret, ind, cci, false, dbg);
                    buf.append(";");
                    if !dbg {
                        buf.append("\n");
                    }
                }
                buf.append("})");
            }
        },
        _ => {
            proof {
                assert(false);
            }
        },
    }
    if bare {
        buf.append(";");
    }
}

/// One group of the expression emitter (see `emit_expr_to`).
#[verifier::rlimit(100)]
pub fn emit_if_to(
    ir: &IrCtx,
    cg: &CodegenCtx,
    buf: &mut String,
    e: &Expr,
    ind: usize,
    cci: bool,
    bare: bool,
    dbg: bool,
)
    requires
        ir.wf(),
        expr_emittable(*ir, *e),
        e.kind matches ExprKind::If(_, _, _, _),
    ensures
        final(buf)@ == old(buf)@ + emit_expr(*ir, cg.names@, *e, ind as int, cci, bare, dbg),
    decreases *e, 1int,
{
    let zst = match ir.is_zero_sized(e.ty) {
        Ok(b) => b,
        Err(_) => {
            proof {
                assert(false);
            }
            false
        },
    };
    if zst {
        emit_if_statement_to(ir, cg, buf, e, ind, cci, bare, dbg);
    } else {
        emit_if_ternary_to(ir, cg, buf, e, ind, cci, bare, dbg);
    }
}

/// A conditional with a zero-sized result lowers to an `if`/`else`
/// statement.
#[verifier::rlimit(100)]
#[verifier::spinoff_prover]
pub fn emit_if_statement_to(
    ir: &IrCtx,
    cg: &CodegenCtx,
    buf: &mut String,
    e: &Expr,
    ind: usize,
    cci: bool,
    bare: bool,
    dbg: bool,
)
    requires
        ir.wf(),
        expr_emittable(*ir, *e),
        e.kind matches ExprKind::If(_, _, _, _),
        zst_spec(*ir, e.ty as int) == Ok::<bool, ErrorKind>(true),
    ensures
        final(buf)@ == old(buf)@ + emit_expr(*ir, cg.names@, *e, ind as int, cci, bare, dbg),
    decreases *e, 0int,
{
    match &e.kind {
        ExprKind::If(cond, then, els, _) => {
            buf.append("if (");
            emit_expr_to(ir, cg, buf, &**cond, ind, cci, false, dbg);
            buf.append(") {");
            if !dbg {
                buf.append("\n");
            }
            emit_expr_to(ir, cg, buf, &**then, bump(ind), cci, true, dbg);
            if !dbg {
                buf.append("\n");
                append_spaces(buf, ind);
            }
            let ghost names = cg.names@;
            let ghost p1 = "if ("@ + emit_expr(*ir, names, **cond, ind as int, cci, false, dbg)
                + ") {"@ + endl_text(dbg) + emit_expr(
                *ir,
                names,
                **then,
                bump_spec(ind as int),
                cci,
                true,
                dbg,
            ) + endl_text(dbg) + spaces_d(dbg, ind as int);
            proof {
                assert(buf@ =~= old(buf)@ + p1);
            }
            let els_skipped = els.is_void() || els.is_unreachable();
            if !els_skipped {
                buf.append("} else {");
                if !dbg {
                    buf.append("\n");
                }
                emit_expr_to(ir, cg, buf, &**els, bump(ind), cci, true, dbg);
                if !dbg {
                    buf.append("\n");
                    append_spaces(buf, ind);
                }
                proof {
                    assert(buf@ =~= old(buf)@ + p1 + ("} else {"@ + endl_text(dbg) + emit_expr(
                        *ir,
                        names,
                        **els,
                        bump_spec(ind as int),
                        cci,
                        true,
                        dbg,
                    ) + endl_text(dbg) + spaces_d(dbg, ind as int)));
                }
            }
            buf.append("}");
        },
        _ => {
            proof {
                assert(false);
            }
        },
    }
    if bare {
        buf.append(";");
    }
}

/// A conditional with a sized result lowers to the ternary operator.
#[verifier::rlimit(100)]
pub fn emit_if_ternary_to(
    ir: &IrCtx,
    cg: &CodegenCtx,
    buf: &mut String,
    e: &Expr,
    ind: usize,
    cci: bool,
    bare: bool,
    dbg: bool,
)
    requires
        ir.wf(),
        expr_emittable(*ir, *e),
        e.kind matches ExprKind::If(_, _, _, _),
        zst_spec(*ir, e.ty as int) != Ok::<bool, ErrorKind>(true),
    ensures
        final(buf)@ == old(buf)@ + emit_expr(*ir, cg.names@, *e, ind as int, cci, bare, dbg),
    decreases *e, 0int,
{
    match &e.kind {
        ExprKind::If(cond, then, els, _) => {
            buf.append("(");
            emit_expr_to(ir, cg, buf, &**cond, ind, cci, false, dbg);
            buf.append("?");
            emit_expr_to(ir, cg, buf, &**then, ind, cci, false, dbg);
            buf.append(":");
            emit_expr_to(ir, cg, buf, &**els, ind, cci, false, dbg);
            buf.append(")");
        },
        _ => {
            proof {
                assert(false);
            }
        },
    }
    if bare {
        buf.append(";");
    }
}

/// One group of the expression emitter (see `emit_expr_to`).
#[verifier::rlimit(100)]
pub fn emit_call_to(
    ir: &IrCtx,
    cg: &CodegenCtx,
    buf: &mut String,
    e: &Expr,
    ind: usize,
    cci: bool,
    bare: bool,
    dbg: bool,
)
    requires
        ir.wf(),
        expr_emittable(*ir, *e),
        e.kind matches ExprKind::Call(_, _),
    ensures
        final(buf)@ == old(buf)@ + emit_expr(*ir, cg.names@, *e, ind as int, cci, bare, dbg),
    decreases *e, 0int,
{
    match &e.kind {
        ExprKind::Call(callee, args) => {
            emit_expr_to(ir, cg, buf, &**callee, ind, cci, false, dbg);
            buf.append("(");
            proof {
                assert(decreases_to!(*e => e.kind));
                assert(decreases_to!(e.kind => *args));
                assert(decreases_to!(*args => args@));
            }
            emit_call_args_to(ir, cg, buf, args, ind, cci, dbg);
            buf.append(")");
        },
        _ => {
            proof {
                assert(false);
            }
        },
    }
    if bare {
        buf.append(";");
    }
}

/// One group of the expression emitter (see `emit_expr_to`).
#[verifier::rlimit(100)]
pub fn emit_array_to(
    ir: &IrCtx,
    cg: &CodegenCtx,
    buf: &mut String,
    e: &Expr,
    ind: usize,
    cci: bool,
    bare: bool,
    dbg: bool,
)
    requires
        ir.wf(),
        expr_emittable(*ir, *e),
        e.kind matches ExprKind::Array(_),
    ensures
        final(buf)@ == old(buf)@ + emit_expr(*ir, cg.names@, *e, ind as int, cci, bare, dbg),
    decreases *e, 0int,
{
    match &e.kind {
        ExprKind::Array(elems) => {
            if !cci {
                buf.append("(");
                buf.append(get_type(ir, e.ty).as_str());
                buf.append(")");
            }
            buf.append("{.__data={");
            if !dbg {
                buf.append("\n");
            }
            proof {
                assert(decreases_to!(*e => e.kind));
                assert(decreases_to!(e.kind => *elems));
                assert(decreases_to!(*elems => elems@));
            }
            emit_array_elems_to(ir, cg, buf, elems, ind, cci, dbg);
            if !dbg {
                append_spaces(buf, ind);
            }
            buf.append("}}");
        },
        _ => {
            proof {
                assert(false);
            }
        },
    }
    if bare {
        buf.append(";");
    }
}

/// One group of the expression emitter (see `emit_expr_to`).
#[verifier::rlimit(100)]
pub fn emit_tuple_to(
    ir: &IrCtx,
    cg: &CodegenCtx,
    buf: &mut String,
    e: &Expr,
    ind: usize,
    cci: bool,
    bare: bool,
    dbg: bool,
)
    requires
        ir.wf(),
        expr_emittable(*ir, *e),
        e.kind matches ExprKind::Tuple(_),
    ensures
        final(buf)@ == old(buf)@ + emit_expr(*ir, cg.names@, *e, ind as int, cci, bare, dbg),
    decreases *e, 0int,
{
    match &e.kind {
        ExprKind::Tuple(inits) => {
            if !cci {
                buf.append("(");
                buf.append(get_type(ir, e.ty).as_str());
                buf.append(")");
            }
            buf.append("{");
            proof {
                assert(decreases_to!(*e => e.kind));
                assert(decreases_to!(e.kind => *inits));
                assert(decreases_to!(*inits => inits@));
            }
            emit_tuple_inits_to(ir, cg, buf, inits, ind, cci, dbg);
            buf.append("}");
        },
        _ => {
            proof {
                assert(false);
            }
        },
    }
    if bare {
        buf.append(";");
    }
}

/// One group of the expression emitter (see `emit_expr_to`).
#[verifier::rlimit(100)]
pub fn emit_struct_to(
    ir: &IrCtx,
    cg: &CodegenCtx,
    buf: &mut String,
    e: &Expr,
    ind: usize,
    cci: bool,
    bare: bool,
    dbg: bool,
)
    requires
        ir.wf(),
        expr_emittable(*ir, *e),
        e.kind matches ExprKind::Struct(_),
    ensures
        final(buf)@ == old(buf)@ + emit_expr(*ir, cg.names@, *e, ind as int, cci, bare, dbg),
    decreases *e, 0int,
{
    match &e.kind {
        ExprKind::Struct(inits) => {
            if !cci {
                buf.append("(");
                buf.append(get_type(ir, e.ty).as_str());
                buf.append(")");
            }
            buf.append("{");
            proof {
                assert(decreases_to!(*e => e.kind));
                assert(decreases_to!(e.kind => *inits));
                assert(decreases_to!(*inits => inits@));
            }
            emit_struct_inits_to(ir, cg, buf, inits, ind, cci, dbg);
            buf.append("}");
        },
        _ => {
            proof {
                assert(false);
            }
        },
    }
    if bare {
        buf.append(";");
    }
}

/// Appends the C text of a statement (see `emit_stmt`).
pub fn emit_stmt_to(
    ir: &IrCtx,
    cg: &CodegenCtx,
    buf: &mut String,
    st: &Statement,
    ind: usize,
    cci: bool,
    dbg: bool,
)
    requires
        ir.wf(),
        stmt_emittable(*ir, *st),
    ensures
        final(buf)@ == old(buf)@ + emit_stmt(*ir, cg.names@, *st, ind as int, cci, dbg),
    decreases *st,
{
    match st {
        Statement::Expression(e) => {
            if !e.is_void() {
                if !dbg {
                    append_spaces(buf, ind);
                }
                emit_expr_to(ir, cg, buf, e, ind, cci, false, dbg);
                buf.append(";");
                if !dbg {
                    buf.append("\n");
                }
            }
        },
        Statement::Label(id) => {
            if !dbg {
                append_spaces(buf, ind);
            }
            buf.append(cg.get_name(id.id).as_str());
            buf.append(": ;");
            if !dbg {
                buf.append("\n");
            }
        },
    }
}


/// Appends the call arguments, zero-sized ones elided, commas between the
/// printed ones.
#[verifier::rlimit(60)]
pub fn emit_call_args_to(
    ir: &IrCtx,
    cg: &CodegenCtx,
    buf: &mut String,
    args: &Vec<Expr>,
    ind: usize,
    cci: bool,
    dbg: bool,
)
    requires
        ir.wf(),
        exprs_emittable_n(*ir, args@, args@.len() as int),
    ensures
        final(buf)@ == old(buf)@ + emit_call_args_n(
            *ir,
            cg.names@,
            args@,
            args@.len() as int,
            ind as int,
            cci,
            dbg,
        ).0,
    decreases args@,
{
    let ghost names = cg.names@;
    let n = args.len();
    let mut i: usize = 0;
    let mut printed: usize = 0;
    while i < n
        invariant
            ir.wf(),
            names == cg.names@,
            n == args@.len(),
            i <= n,
            printed <= i,
            exprs_emittable_n(*ir, args@, n as int),
            buf@ == old(buf)@ + emit_call_args_n(*ir, names, args@, i as int, ind as int, cci, dbg).0,
            printed as int == emit_call_args_n(*ir, names, args@, i as int, ind as int, cci, dbg).1,
        decreases n - i,
    {
        proof {
            if !expr_emittable(*ir, args@[i as int]) {
                lemma_exprs_not_emittable(*ir, args@, i as int, n as int);
            }
            assert(decreases_to!(args@ => args@[i as int]));
        }
        let zst = match ir.is_zero_sized(args[i].ty) {
            Ok(b) => b,
            Err(_) => {
                proof {
                    assert(false);
                }
                false
            },
        };
        if !zst {
            if printed > 0 {
                buf.append(", ");
            }
            emit_expr_to(ir, cg, buf, &args[i], ind, cci, false, dbg);
            printed = printed + 1;
        }
        i = i + 1;
    }
}

/// Appends the statements of a block in order.
#[verifier::rlimit(60)]
pub fn emit_stmts_to(
    ir: &IrCtx,
    cg: &CodegenCtx,
    buf: &mut String,
    stmts: &Vec<Statement>,
    ind: usize,
    cci: bool,
    dbg: bool,
)
    requires
        ir.wf(),
        stmts_emittable_n(*ir, stmts@, stmts@.len() as int),
    ensures
        final(buf)@ == old(buf)@ + emit_stmts_n(
            *ir,
            cg.names@,
            stmts@,
            stmts@.len() as int,
            ind as int,
            cci,
            dbg,
        ),
    decreases stmts@,
{
    let ghost names = cg.names@;
    let n = stmts.len();
    let mut i: usize = 0;
    while i < n
        invariant
            ir.wf(),
            names == cg.names@,
            n == stmts@.len(),
            i <= n,
            stmts_emittable_n(*ir, stmts@, n as int),
            buf@ == old(buf)@ + emit_stmts_n(*ir, names, stmts@, i as int, ind as int, cci, dbg),
        decreases n - i,
    {
        proof {
            if !stmt_emittable(*ir, stmts@[i as int]) {
                lemma_stmts_not_emittable(*ir, stmts@, i as int, n as int);
            }
            assert(decreases_to!(stmts@ => stmts@[i as int]));
        }
        emit_stmt_to(ir, cg, buf, &stmts[i], ind, cci, dbg);
        proof {
            assert(buf@ =~= old(buf)@ + emit_stmts_n(*ir, names, stmts@, i + 1, ind as int, cci, dbg));
        }
        i = i + 1;
    }
}

/// Appends the elements of an array literal, one per line.
#[verifier::rlimit(60)]
pub fn emit_array_elems_to(
    ir: &IrCtx,
    cg: &CodegenCtx,
    buf: &mut String,
    elems: &Vec<Expr>,
    ind: usize,
    cci: bool,
    dbg: bool,
)
    requires
        ir.wf(),
        exprs_emittable_n(*ir, elems@, elems@.len() as int),
    ensures
        final(buf)@ == old(buf)@ + emit_array_elems_n(
            *ir,
            cg.names@,
            elems@,
            elems@.len() as int,
            ind as int,
            cci,
            dbg,
        ),
    decreases elems@,
{
    let ghost names = cg.names@;
    let n = elems.len();
    let mut i: usize = 0;
    while i < n
        invariant
            ir.wf(),
            names == cg.names@,
            n == elems@.len(),
            i <= n,
            exprs_emittable_n(*ir, elems@, n as int),
            buf@ == old(buf)@ + emit_array_elems_n(*ir, names, elems@, i as int, ind as int, cci, dbg),
        decreases n - i,
    {
        proof {
            if !expr_emittable(*ir, elems@[i as int]) {
                lemma_exprs_not_emittable(*ir, elems@, i as int, n as int);
            }
            assert(decreases_to!(elems@ => elems@[i as int]));
        }
        if !dbg {
            append_spaces(buf, ind);
        }
        emit_expr_to(ir, cg, buf, &elems[i], ind, cci, false, dbg);
        buf.append(",");
        if !dbg {
            buf.append("\n");
        }
        proof {
            assert(buf@ =~= old(buf)@ + emit_array_elems_n(*ir, names, elems@, i + 1, ind as int, cci, dbg));
        }
        i = i + 1;
    }
}

/// Appends tuple initializers, zero-sized fields elided.
#[verifier::rlimit(60)]
pub fn emit_tuple_inits_to(
    ir: &IrCtx,
    cg: &CodegenCtx,
    buf: &mut String,
    inits: &Vec<TupleInit>,
    ind: usize,
    cci: bool,
    dbg: bool,
)
    requires
        ir.wf(),
        tuple_inits_emittable_n(*ir, inits@, inits@.len() as int),
    ensures
        final(buf)@ == old(buf)@ + emit_tuple_inits_n(
            *ir,
            cg.names@,
            inits@,
            inits@.len() as int,
            ind as int,
            cci,
            dbg,
        ),
    decreases inits@,
{
    let ghost names = cg.names@;
    let n = inits.len();
    let mut i: usize = 0;
    while i < n
        invariant
            ir.wf(),
            names == cg.names@,
            n == inits@.len(),
            i <= n,
            tuple_inits_emittable_n(*ir, inits@, n as int),
            buf@ == old(buf)@ + emit_tuple_inits_n(*ir, names, inits@, i as int, ind as int, cci, dbg),
        decreases n - i,
    {
        proof {
            if !expr_emittable(*ir, inits@[i as int].value) {
                lemma_tuple_inits_not_emittable(*ir, inits@, i as int, n as int);
            }
            assert(decreases_to!(inits@ => inits@[i as int]));
            assert(decreases_to!(inits@[i as int] => inits@[i as int].value));
        }
        let zst = match ir.is_zero_sized(inits[i].value.ty) {
            Ok(b) => b,
            Err(_) => {
                proof {
                    assert(false);
                }
                false
            },
        };
        if !zst {
            buf.append("._");
            buf.append(usize_dec(inits[i].index).as_str());
            buf.append("=");
            emit_expr_to(ir, cg, buf, &inits[i].value, ind, cci, false, dbg);
            buf.append(",");
        }
        proof {
            assert(buf@ =~= old(buf)@ + emit_tuple_inits_n(*ir, names, inits@, i + 1, ind as int, cci, dbg));
        }
        i = i + 1;
    }
}

/// Appends struct initializers, zero-sized fields elided.
#[verifier::rlimit(60)]
pub fn emit_struct_inits_to(
    ir: &IrCtx,
    cg: &CodegenCtx,
    buf: &mut String,
    inits: &Vec<StructInit>,
    ind: usize,
    cci: bool,
    dbg: bool,
)
    requires
        ir.wf(),
        struct_inits_emittable_n(*ir, inits@, inits@.len() as int),
    ensures
        final(buf)@ == old(buf)@ + emit_struct_inits_n(
            *ir,
            cg.names@,
            inits@,
            inits@.len() as int,
            ind as int,
            cci,
            dbg,
        ),
    decreases inits@,
{
    let ghost names = cg.names@;
    let n = inits.len();
    let mut i: usize = 0;
    while i < n
        invariant
            ir.wf(),
            names == cg.names@,
            n == inits@.len(),
            i <= n,
            struct_inits_emittable_n(*ir, inits@, n as int),
            buf@ == old(buf)@ + emit_struct_inits_n(*ir, names, inits@, i as int, ind as int, cci, dbg),
        decreases n - i,
    {
        proof {
            if !expr_emittable(*ir, inits@[i as int].value) {
                lemma_struct_inits_not_emittable(*ir, inits@, i as int, n as int);
            }
            assert(decreases_to!(inits@ => inits@[i as int]));
            assert(decreases_to!(inits@[i as int] => inits@[i as int].value));
        }
        let zst = match ir.is_zero_sized(inits[i].value.ty) {
            Ok(b) => b,
            Err(_) => {
                proof {
                    assert(false);
                }
                false
            },
        };
        if !zst {
            buf.append(".");
            buf.append(cg.get_name(inits[i].field.id).as_str());
            buf.append("=");
            emit_expr_to(ir, cg, buf, &inits[i].value, ind, cci, false, dbg);
            buf.append(",");
        }
        proof {
            assert(buf@ =~= old(buf)@ + emit_struct_inits_n(*ir, names, inits@, i + 1, ind as int, cci, dbg));
        }
        i = i + 1;
    }
}


pub open spec fn has_attr_always_inline(attrs: Seq<Attribute>) -> bool {
    exists|i: int| 0 <= i < attrs.len() && attrs[i] is AlwaysInline
}

pub open spec fn has_attr_no_inline(attrs: Seq<Attribute>) -> bool {
    exists|i: int| 0 <= i < attrs.len() && attrs[i] is NoInline
}

pub open spec fn has_attr_inline(attrs: Seq<Attribute>) -> bool {
    exists|i: int| 0 <= i < attrs.len() && attrs[i] is Inline
}

pub open spec fn has_attr_static_constructor(attrs: Seq<Attribute>) -> bool {
    exists|i: int| 0 <= i < attrs.len() && attrs[i] is StaticConstructor
}

pub open spec fn has_attr_cold(attrs: Seq<Attribute>) -> bool {
    exists|i: int| 0 <= i < attrs.len() && attrs[i] is Cold
}

pub open spec fn has_attr_export(attrs: Seq<Attribute>) -> bool {
    exists|i: int| 0 <= i < attrs.len() && attrs[i] is Export
}

pub open spec fn has_attr_thread_local(attrs: Seq<Attribute>) -> bool {
    exists|i: int| 0 <= i < attrs.len() && attrs[i] is ThreadLocal
}

pub open spec fn has_attr_link_name(attrs: Seq<Attribute>) -> bool {
    exists|i: int| 0 <= i < attrs.len() && attrs[i] is LinkName
}

/// The first `link_name` attribute's bytes, if any.
pub open spec fn link_name_of(attrs: Seq<Attribute>) -> Option<Seq<u8>>
    decreases attrs.len(),
{
    if attrs.len() == 0 {
        None
    } else {
        match attrs[0] {
            Attribute::LinkName(bytes) => Some(bytes@),
            _ => link_name_of(attrs.drop_first()),
        }
    }
}

/// Scans a list of attributes for the facts the emitter needs.
pub fn scan_attrs(attrs: &Vec<Attribute>) -> (r: (bool, bool, bool, bool, bool, bool, bool))
    ensures
        r.0 == has_attr_always_inline(attrs@),
        r.1 == has_attr_no_inline(attrs@),
        r.2 == has_attr_inline(attrs@),
        r.3 == has_attr_static_constructor(attrs@),
        r.4 == has_attr_cold(attrs@),
        r.5 == has_attr_export(attrs@),
        r.6 == has_attr_thread_local(attrs@),
{
    let n = attrs.len();
    let mut always = false;
    let mut noinline = false;
    let mut inline = false;
    let mut ctor = false;
    let mut cold = false;
    let mut export = false;
    let mut tl = false;
    let mut i: usize = 0;
    while i < n
        invariant
            n == attrs@.len(),
            i <= n,
            always == exists|k: int| 0 <= k < i && attrs@[k] is AlwaysInline,
            noinline == exists|k: int| 0 <= k < i && attrs@[k] is NoInline,
            inline == exists|k: int| 0 <= k < i && attrs@[k] is Inline,
            ctor == exists|k: int| 0 <= k < i && attrs@[k] is StaticConstructor,
            cold == exists|k: int| 0 <= k < i && attrs@[k] is Cold,
            export == exists|k: int| 0 <= k < i && attrs@[k] is Export,
            tl == exists|k: int| 0 <= k < i && attrs@[k] is ThreadLocal,
        decreases n - i,
    {
        match &attrs[i] {
            Attribute::AlwaysInline => {
                always = true;
            },
            Attribute::NoInline => {
                noinline = true;
            },
            Attribute::Inline => {
                inline = true;
            },
            Attribute::StaticConstructor => {
                ctor = true;
            },
            Attribute::Cold => {
                cold = true;
            },
            Attribute::Export => {
                export = true;
            },
            Attribute::ThreadLocal => {
                tl = true;
            },
            _ => {},
        }
        i = i + 1;
    }
    (always, noinline, inline, ctor, cold, export, tl)
}

/// The first `link_name` attribute's bytes, if any.
pub fn find_link_name(attrs: &Vec<Attribute>) -> (r: Option<Vec<u8>>)
    ensures
        match r {
            Some(bytes) => link_name_of(attrs@) == Some(bytes@),
            None => link_name_of(attrs@) is None,
        },
{
    let n = attrs.len();
    let mut i: usize = 0;
    proof {
        assert(attrs@.skip(0) =~= attrs@);
    }
    while i < n
        invariant
            n == attrs@.len(),
            i <= n,
            link_name_of(attrs@) == link_name_of(attrs@.skip(i as int)),
        decreases n - i,
    {
        proof {
            assert(attrs@.skip(i as int).len() > 0);
            assert(attrs@.skip(i as int)[0] == attrs@[i as int]);
            assert(attrs@.skip(i as int).drop_first() =~= attrs@.skip(i + 1));
        }
        match &attrs[i] {
            Attribute::LinkName(bytes) => {
                return Some(crate::ast::copy_vec(bytes));
            },
            _ => {},
        }
        i = i + 1;
    }
    proof {
        assert(attrs@.skip(n as int).len() == 0);
    }
    None
}

/// Bytes shown as characters (for `asm` link names).
pub open spec fn bytes_chars(bytes: Seq<u8>) -> Seq<char> {
    Seq::new(bytes.len(), |i: int| bytes[i] as char)
}

pub fn append_bytes_chars(buf: &mut String, bytes: &Vec<u8>)
    ensures
        final(buf)@ == old(buf)@ + bytes_chars(bytes@),
{
    let n = bytes.len();
    let mut i: usize = 0;
    while i < n
        invariant
            n == bytes@.len(),
            i <= n,
            buf@ == old(buf)@ + bytes_chars(bytes@).take(i as int),
        decreases n - i,
    {
        push_char(buf, bytes[i] as char);
        proof {
            assert(buf@ =~= old(buf)@ + bytes_chars(bytes@).take(i + 1));
        }
        i = i + 1;
    }
    proof {
        assert(bytes_chars(bytes@).take(n as int) =~= bytes_chars(bytes@));
    }
}

/// The GCC attribute prefix of a function signature, including `_Noreturn`
/// for functions that never return.
pub open spec fn fn_attr_prefix(attrs: Seq<Attribute>, never_ret: bool) -> Seq<char> {
    let base = if has_attr_always_inline(attrs) {
        "__attribute__((always_inline)) inline "@
    } else if has_attr_no_inline(attrs) {
        "__attribute__((noinline)) "@
    } else if has_attr_inline(attrs) {
        "inline "@
    } else if has_attr_static_constructor(attrs) {
        "__attribute__((constructor)) "@
    } else {
        Seq::empty()
    };
    let with_cold = if has_attr_cold(attrs) {
        "__attribute__((cold)) "@ + base
    } else {
        base
    };
    if never_ret {
        "_Noreturn "@ + with_cold
    } else {
        with_cold
    }
}

/// Whether a function signature can be emitted: its types are interned and
/// of known size.
pub open spec fn signature_emittable(ir: IrCtx, f: Function) -> bool {
    &&& (f.return_type as int) < ir.types@.len()
    &&& zst_spec(ir, f.return_type as int) is Ok
    &&& forall|k: int|
        0 <= k < f.args@.len() ==> ((#[trigger] f.args@[k]).ty as int) < ir.types@.len()
            && zst_spec(ir, f.args@[k].ty as int) is Ok
}

/// The parameters of a signature, zero-sized ones elided, and how many were
/// printed.
pub open spec fn emit_params_n(
    ir: IrCtx,
    names: Seq<(usize, CName)>,
    args: Seq<Parameter>,
    n: int,
) -> (Seq<char>, int)
    decreases n,
{
    if n <= 0 || n > args.len() {
        (Seq::empty(), 0)
    } else {
        let prev = emit_params_n(ir, names, args, n - 1);
        if zst_spec(ir, args[n - 1].ty as int) == Ok::<bool, ErrorKind>(true) {
            prev
        } else {
            (
                prev.0 + (if prev.1 > 0 {
                    ", "@
                } else {
                    Seq::empty()
                }) + type_text(ir.types@[args[n - 1].ty as int], args[n - 1].ty as int) + " "@
                    + name_text(names, args[n - 1].id.id),
                prev.1 + 1,
            )
        }
    }
}

/// The text of a function signature: attributes, return type (`void` when
/// the return type is zero-sized), name, parameters with zero-sized ones
/// elided, `...` for varargs, and for declarations of renamed items an
/// `asm` link name.
pub open spec fn signature_text(
    ir: IrCtx,
    names: Seq<(usize, CName)>,
    id: usize,
    f: Function,
    is_static: bool,
    is_body: bool,
) -> Seq<char> {
    sig_head_text(ir, names, id, f, is_static) + emit_params_n(
        ir,
        names,
        f.args@,
        f.args@.len() as int,
    ).0 + (if f.varargs {
        (if f.args@.len() > 0 {
            ", "@
        } else {
            Seq::empty()
        }) + "..."@
    } else {
        Seq::empty()
    }) + ")"@ + (match link_name_of(f.attributes@) {
        Some(bytes) => if !is_body {
            " asm("@ + bytes_chars(bytes) + ")"@
        } else {
            Seq::empty()
        },
        None => Seq::empty(),
    })
}

/// Appends the parameter list of a signature, zero-sized parameters
/// elided.
#[verifier::rlimit(100)]
pub fn emit_params_to(ir: &IrCtx, cg: &CodegenCtx, buf: &mut String, args: &Vec<Parameter>)
    requires
        ir.wf(),
        forall|k: int|
            0 <= k < args@.len() ==> ((#[trigger] args@[k]).ty as int) < ir.types@.len()
                && zst_spec(*ir, args@[k].ty as int) is Ok,
    ensures
        final(buf)@ == old(buf)@ + emit_params_n(*ir, cg.names@, args@, args@.len() as int).0,
{
    let ghost names = cg.names@;
    let nargs = args.len();
    let mut k: usize = 0;
    let mut printed: usize = 0;
    while k < nargs
        invariant
            ir.wf(),
            names == cg.names@,
            nargs == args@.len(),
            k <= nargs,
            printed <= k,
            forall|j: int|
                0 <= j < args@.len() ==> ((#[trigger] args@[j]).ty as int) < ir.types@.len()
                    && zst_spec(*ir, args@[j].ty as int) is Ok,
            buf@ == old(buf)@ + emit_params_n(*ir, names, args@, k as int).0,
            printed as int == emit_params_n(*ir, names, args@, k as int).1,
        decreases nargs - k,
    {
        let zst = match ir.is_zero_sized(args[k].ty) {
            Ok(b) => b,
            Err(_) => {
                proof {
                    assert(false);
                }
                false
            },
        };
        if !zst {
            if printed > 0 {
                buf.append(", ");
            }
            buf.append(get_type(ir, args[k].ty).as_str());
            buf.append(" ");
            buf.append(cg.get_name(args[k].id.id).as_str());
            printed = printed + 1;
        }
        k = k + 1;
    }
}

/// Appends the GCC attribute prefix of a signature.
pub fn emit_attr_prefix_to(buf: &mut String, attrs: &Vec<Attribute>, never_ret: bool)
    ensures
        final(buf)@ == old(buf)@ + fn_attr_prefix(attrs@, never_ret),
{
    let (always, noinline, inline, ctor, cold, _export, _tl) = scan_attrs(attrs);
    if never_ret {
        buf.append("_Noreturn ");
    }
    if cold {
        buf.append("__attribute__((cold)) ");
    }
    if always {
        buf.append("__attribute__((always_inline)) inline ");
    } else if noinline {
        buf.append("__attribute__((noinline)) ");
    } else if inline {
        buf.append("inline ");
    } else if ctor {
        buf.append("__attribute__((constructor)) ");
    }
    proof {
        assert(buf@ =~= old(buf)@ + fn_attr_prefix(attrs@, never_ret));
    }
}

/// The opening of a signature, up to and including the parenthesis that
/// starts the parameter list.
pub open spec fn sig_head_text(
    ir: IrCtx,
    names: Seq<(usize, CName)>,
    id: usize,
    f: Function,
    is_static: bool,
) -> Seq<char> {
    let never_ret = ir.types@[f.return_type as int] == Ty::Builtin(BuiltinType::Never);
    let ret = if zst_spec(ir, f.return_type as int) == Ok::<bool, ErrorKind>(true) {
        "void"@
    } else {
        type_text(ir.types@[f.return_type as int], f.return_type as int)
    };
    let is_inline = has_attr_always_inline(f.attributes@) || has_attr_inline(f.attributes@);
    "\n"@ + fn_attr_prefix(f.attributes@, never_ret) + (if is_static || is_inline {
        "static "@
    } else {
        Seq::empty()
    }) + ret + " "@ + name_text(names, id) + "("@
}

/// Appends the opening of a signature (see `sig_head_text`).
#[verifier::rlimit(100)]
#[verifier::spinoff_prover]
pub fn emit_sig_head_to(
    ir: &IrCtx,
    cg: &CodegenCtx,
    buf: &mut String,
    id: usize,
    item: &Function,
    is_static: bool,
)
    requires
        ir.wf(),
        signature_emittable(*ir, *item),
    ensures
        final(buf)@ == old(buf)@ + sig_head_text(*ir, cg.names@, id, *item, is_static),
{
    let (always, _noinline, inline, _ctor, _cold, _export, _tl) = scan_attrs(&item.attributes);
    buf.append("\n");
    let nr = never_returns(ir, item.return_type);
    emit_attr_prefix_to(buf, &item.attributes, nr);
    if is_static || always || inline {
        buf.append("static ");
    }
    let ret_zst = match ir.is_zero_sized(item.return_type) {
        Ok(b) => b,
        Err(_) => {
            proof {
                assert(false);
            }
            false
        },
    };
    if ret_zst {
        buf.append("void");
    } else {
        buf.append(get_type(ir, item.return_type).as_str());
    }
    buf.append(" ");
    buf.append(cg.get_name(id).as_str());
    buf.append("(");
    proof {
        assert(buf@ =~= old(buf)@ + sig_head_text(*ir, cg.names@, id, *item, is_static));
    }
}

/// Appends a function signature (see `signature_text`).
#[verifier::rlimit(100)]
pub fn emit_signature_to(
    ir: &IrCtx,
    cg: &CodegenCtx,
    buf: &mut String,
    id: usize,
    item: &Function,
    is_static: bool,
    is_body: bool,
)
    requires
        ir.wf(),
        signature_emittable(*ir, *item),
    ensures
        final(buf)@ == old(buf)@ + signature_text(*ir, cg.names@, id, *item, is_static, is_body),
{
    let ghost names = cg.names@;
    emit_sig_head_to(ir, cg, buf, id, item, is_static);
    emit_params_to(ir, cg, buf, &item.args);
    let ghost mid2 = buf@;
    if item.varargs {
        if item.args.len() > 0 {
            buf.append(", ");
        }
        buf.append("...");
    }
    buf.append(")");
    proof {
        assert(buf@ =~= mid2 + (if item.varargs {
            (if item.args@.len() > 0 {
                ", "@
            } else {
                Seq::empty()
            }) + "..."@
        } else {
            Seq::empty()
        }) + ")"@);
    }
    match find_link_name(&item.attributes) {
        Some(bytes) => {
            if !is_body {
                buf.append(" asm(");
                append_bytes_chars(buf, &bytes);
                buf.append(")");
            }
        },
        None => {},
    }
    proof {
        assert(buf@ =~= old(buf)@ + signature_text(*ir, cg.names@, id, *item, is_static, is_body));
    }
}

/// Whether a function is declared under its own name: it has no
/// `link_name`, and it is either bodiless (externally defined) or exported.
pub open spec fn fn_decl_is_native(f: Function) -> bool {
    link_name_of(f.attributes@) is None && (f.body is None || has_attr_export(f.attributes@))
}

/// Writes a function signature into the given buffer, rejecting functions
/// whose types are not interned or not of known size.
pub fn write_function_signature(
    ir: &IrCtx,
    cg: &CodegenCtx,
    buf: &mut String,
    id: usize,
    item: &Function,
    is_static: bool,
    is_body: bool,
) -> (r: Result<(), ErrorKind>)
    requires
        ir.wf(),
    ensures
        match r {
            Ok(()) => signature_emittable(*ir, *item) && final(buf)@ == old(buf)@
                + signature_text(*ir, cg.names@, id, *item, is_static, is_body),
            Err(k) => k == ErrorKind::InternalError && !signature_emittable(*ir, *item)
                && final(buf)@ == old(buf)@,
        },
{
    if item.return_type >= ir.types.len() {
        return Err(ErrorKind::InternalError);
    }
    if ir.is_zero_sized(item.return_type).is_err() {
        return Err(ErrorKind::InternalError);
    }
    let nargs = item.args.len();
    let mut i: usize = 0;
    while i < nargs
        invariant
            ir.wf(),
            nargs == item.args@.len(),
            i <= nargs,
            forall|k: int|
                0 <= k < i ==> ((#[trigger] item.args@[k]).ty as int) < ir.types@.len()
                    && zst_spec(*ir, item.args@[k].ty as int) is Ok,
        decreases nargs - i,
    {
        if item.args[i].ty >= ir.types.len() {
            return Err(ErrorKind::InternalError);
        }
        if ir.is_zero_sized(item.args[i].ty).is_err() {
            return Err(ErrorKind::InternalError);
        }
        i = i + 1;
    }
    emit_signature_to(ir, cg, buf, id, item, is_static, is_body);
    Ok(())
}

/// Whether the type at the given index is the `never` type.
pub fn never_returns(ir: &IrCtx, t: usize) -> (r: bool)
    requires
        (t as int) < ir.types@.len(),
    ensures
        r == (ir.types@[t as int] == Ty::Builtin(BuiltinType::Never)),
{
    match ir.types[t] {
        Ty::Builtin(BuiltinType::Never) => true,
        _ => false,
    }
}


/// The text of a local variable definition.
pub open spec fn local_def_text(
    ir: IrCtx,
    names: Seq<(usize, CName)>,
    def: LocalDef,
    ind: int,
    dbg: bool,
) -> Seq<char> {
    spaces_d(dbg, ind) + type_text(ir.types@[def.typ as int], def.typ as int) + " "@ + name_text(
        names,
        def.id.id,
    ) + ";\n"@
}

/// One `#line` directive on a line of its own: the 1-based source line
/// and, when the file id is registered, its quoted path (unregistered ids
/// keep the current file).
pub open spec fn line_directive_text(paths: Seq<String>, file: usize, line: usize) -> Seq<char> {
    "\n#line "@ + dec_digits((line as nat) + 1) + (if (file as int) < paths.len() {
        " \""@ + paths[file as int]@ + "\""@
    } else {
        Seq::empty()
    }) + "\n"@
}

/// The (file, line) a statement's expression points at, if any.
pub open spec fn stmt_line_key(st: Statement) -> Option<(usize, usize)> {
    match st {
        Statement::Expression(e) => match e.span {
            Some(sp) => Some((sp.file, sp.line)),
            None => None,
        },
        Statement::Label(_) => None,
    }
}

/// Statements under debug layout: a `#line` directive stands before every
/// statement whose source line differs from the one last named; a
/// statement without a span resets the tracking.  Returns the text and the
/// last named (file, line).
pub open spec fn emit_stmts_dbg_n(
    ir: IrCtx,
    names: Seq<(usize, CName)>,
    paths: Seq<String>,
    s: Seq<Statement>,
    n: int,
    ind: int,
    cci: bool,
    last: Option<(usize, usize)>,
) -> (Seq<char>, Option<(usize, usize)>)
    decreases s, 2int, n,
{
    if n <= 0 || n > s.len() {
        (Seq::empty(), last)
    } else {
        let prev = emit_stmts_dbg_n(ir, names, paths, s, n - 1, ind, cci, last);
        match stmt_line_key(s[n - 1]) {
            Some(k) => {
                let dir = if prev.1 == Some(k) {
                    Seq::<char>::empty()
                } else {
                    line_directive_text(paths, k.0, k.1)
                };
                (prev.0 + dir + emit_stmt(ir, names, s[n - 1], ind, cci, true), Some(k))
            },
            None => (prev.0 + emit_stmt(ir, names, s[n - 1], ind, cci, true), None),
        }
    }
}

/// The text of a function body: braces around the local definitions and
/// statements, or around a single `__builtin_unreachable()` when a
/// parameter has the `never` type (such a function cannot be called).
pub open spec fn function_body_text(
    ir: IrCtx,
    names: Seq<(usize, CName)>,
    paths: Seq<String>,
    id: usize,
    f: Function,
    body: FuncBody,
    is_static: bool,
    dbg: bool,
) -> Seq<char> {
    signature_text(ir, names, id, f, is_static, true) + "{\n"@ + (if exists|k: int|
        0 <= k < f.args@.len() && ir.types@[(#[trigger] f.args@[k]).ty as int] == Ty::Builtin(
            BuiltinType::Never,
        ) {
        spaces_d(dbg, 2) + "__builtin_unreachable();"@ + endl_text(dbg)
    } else {
        local_defs_text(ir, names, body.local_defs@, body.local_defs@.len() as int, 2, dbg) + (
        if dbg {
            emit_stmts_dbg_n(
                ir,
                names,
                paths,
                body.statements@,
                body.statements@.len() as int,
                2,
                false,
                None,
            ).0
        } else {
            emit_stmts_n(ir, names, body.statements@, body.statements@.len() as int, 2, false, dbg)
        })
    }) + "}\n"@
}

pub open spec fn local_defs_text(
    ir: IrCtx,
    names: Seq<(usize, CName)>,
    defs: Seq<LocalDef>,
    n: int,
    ind: int,
    dbg: bool,
) -> Seq<char>
    decreases n,
{
    if n <= 0 || n > defs.len() {
        Seq::empty()
    } else {
        local_defs_text(ir, names, defs, n - 1, ind, dbg) + local_def_text(
            ir,
            names,
            defs[n - 1],
            ind,
            dbg,
        )
    }
}

impl FunctionWriter {
    /// Appends the C text of an expression to the body buffer; rejects
    /// expressions that are not fit for emission (see `expr_emittable`).
    pub fn write_expr(&mut self, ir: &IrCtx, expr: &Expr, bare_block: bool) -> (r: Result<
        (),
        ErrorKind,
    >)
        requires
            ir.wf(),
        ensures
            FunctionWriter::same_but_bodies(*final(self), *old(self)),
            match r {
                Ok(()) => expr_emittable(*ir, *expr) && final(self).fn_bodies@ == old(
                    self,
                ).fn_bodies@ + emit_expr(
                    *ir,
                    old(self).ctx.names@,
                    *expr,
                    old(self).indent as int,
                    old(self).in_const_init,
                    bare_block,
                    old(self).debug_info,
                ),
                Err(k) => k == ErrorKind::InternalError && !expr_emittable(*ir, *expr) && final(self).fn_bodies@ == old(self).fn_bodies@,
            },
    {
        if !validate_expr(ir, expr) {
            return Err(ErrorKind::InternalError);
        }
        let ind = self.indent;
        let cci = self.in_const_init;
        let dbg = self.debug_info;
        emit_expr_to(ir, &self.ctx, &mut self.fn_bodies, expr, ind, cci, bare_block, dbg);
        Ok(())
    }

    /// Appends the C text of a statement to the body buffer.
    pub fn write_stmt(&mut self, ir: &IrCtx, stmt: &Statement) -> (r: Result<(), ErrorKind>)
        requires
            ir.wf(),
        ensures
            FunctionWriter::same_but_bodies(*final(self), *old(self)),
            match r {
                Ok(()) => stmt_emittable(*ir, *stmt) && final(self).fn_bodies@ == old(
                    self,
                ).fn_bodies@ + emit_stmt(
                    *ir,
                    old(self).ctx.names@,
                    *stmt,
                    old(self).indent as int,
                    old(self).in_const_init,
                    old(self).debug_info,
                ),
                Err(k) => k == ErrorKind::InternalError && !stmt_emittable(*ir, *stmt) && final(self).fn_bodies@ == old(self).fn_bodies@,
            },
    {
        if !validate_stmt(ir, stmt) {
            return Err(ErrorKind::InternalError);
        }
        let ind = self.indent;
        let cci = self.in_const_init;
        let dbg = self.debug_info;
        emit_stmt_to(ir, &self.ctx, &mut self.fn_bodies, stmt, ind, cci, dbg);
        Ok(())
    }

    /// Appends a local variable definition to the body buffer.
    pub fn write_local_def(&mut self, ir: &IrCtx, def: &LocalDef) -> (r: Result<(), ErrorKind>)
        ensures
            FunctionWriter::same_but_bodies(*final(self), *old(self)),
            match r {
                Ok(()) => (def.typ as int) < ir.types@.len() && final(self).fn_bodies@ == old(
                    self,
                ).fn_bodies@ + local_def_text(
                    *ir,
                    old(self).ctx.names@,
                    *def,
                    old(self).indent as int,
                    old(self).debug_info,
                ),
                Err(k) => k == ErrorKind::InternalError && (def.typ as int) >= ir.types@.len()
                    && final(self).fn_bodies@ == old(self).fn_bodies@,
            },
    {
        if def.typ >= ir.types.len() {
            return Err(ErrorKind::InternalError);
        }
        if !self.debug_info {
            let ind = self.indent;
            append_spaces(&mut self.fn_bodies, ind);
        }
        self.fn_bodies.append(get_type(ir, def.typ).as_str());
        self.fn_bodies.append(" ");
        self.fn_bodies.append(self.ctx.get_name(def.id.id).as_str());
        self.fn_bodies.append(";\n");
        Ok(())
    }

    /// Writes a function's declaration, registering the C name the function
    /// will go by: the verbatim name for bodiless or exported functions, a
    /// mangled or opaque name otherwise.
    pub fn write_function_decl(&mut self, ir: &IrCtx, id: usize, item: &Function) -> (r: Result<
        (),
        ErrorKind,
    >)
        requires
            ir.wf(),
        ensures
            final(self).fn_bodies@ == old(self).fn_bodies@,
            final(self).indent == old(self).indent,
            final(self).debug_info == old(self).debug_info,
            final(self).in_const_init == old(self).in_const_init,
            match r {
                Ok(()) => {
                    &&& signature_emittable(*ir, *item)
                    &&& if fn_decl_is_native(*item) {
                        &&& item.name is Some
                        &&& final(self).ctx.names@ == old(self).ctx.names@.push(
                            (
                                id,
                                CName::Native(
                                    match item.name {
                                        Some(n) => n,
                                        None => arbitrary(),
                                    },
                                ),
                            ),
                        )
                        &&& final(self).ctx.counter() == old(self).ctx.counter()
                        &&& final(self).fn_decls@ == old(self).fn_decls@ + signature_text(
                            *ir,
                            final(self).ctx.names@,
                            id,
                            *item,
                            false,
                            false,
                        ) + ";"@
                    } else {
                        &&& final(self).ctx.counter() == old(self).ctx.counter() + 1
                        &&& final(self).ctx.names@ == old(self).ctx.names@.push(
                            (
                                id,
                                match item.name {
                                    Some(n) => CName::Mangled(
                                        n,
                                        old(self).ctx.counter() as usize,
                                    ),
                                    None => CName::Id(old(self).ctx.counter() as usize),
                                },
                            ),
                        )
                        &&& final(self).fn_decls@ == old(self).fn_decls@ + signature_text(
                            *ir,
                            final(self).ctx.names@,
                            id,
                            *item,
                            item.body is Some && !has_attr_export(item.attributes@) && !(
                            link_name_of(item.attributes@) is Some) && !old(self).debug_info,
                            false,
                        ) + ";"@
                    }
                },
                Err(k) => k == ErrorKind::InternalError && (!signature_emittable(*ir, *item) || (
                fn_decl_is_native(*item) && item.name is None)),
            },
    {
        let has_link_name = find_link_name(&item.attributes).is_some();
        let (_a, _n, _i, _c, _cold, export, _tl) = scan_attrs(&item.attributes);
        let should_export = export || has_link_name;
        if !has_link_name && (item.body.is_none() || should_export) {
            let name = match &item.name {
                Some(n) => n.clone(),
                None => {
                    return Err(ErrorKind::InternalError);
                },
            };
            self.ctx.register_name(id, CName::Native(name));
            let r = write_function_signature(
                ir,
                &self.ctx,
                &mut self.fn_decls,
                id,
                item,
                false,
                false,
            );
            if r.is_err() {
                return Err(ErrorKind::InternalError);
            }
        } else {
            let fresh = self.ctx.make_id();
            let cname = match &item.name {
                Some(n) => CName::Mangled(n.clone(), fresh),
                None => CName::Id(fresh),
            };
            self.ctx.register_name(id, cname);
            let is_static = item.body.is_some() && !should_export && !self.debug_info;
            let r = write_function_signature(
                ir,
                &self.ctx,
                &mut self.fn_decls,
                id,
                item,
                is_static,
                false,
            );
            if r.is_err() {
                return Err(ErrorKind::InternalError);
            }
        }
        self.fn_decls.append(";");
        Ok(())
    }

    /// Writes a static's declaration: `extern` for externally defined
    /// statics, `static` otherwise, with `__thread` for thread-locals.
    /// Zero-sized statics produce no declaration at all.
    pub fn write_static_decl(&mut self, ir: &IrCtx, id: usize, item: &Static) -> (r: Result<
        (),
        ErrorKind,
    >)
        requires
            ir.wf(),
        ensures
            final(self).fn_bodies@ == old(self).fn_bodies@,
            final(self).ctx.counter() == old(self).ctx.counter(),
            match r {
                Ok(()) => {
                    &&& (item.typ as int) < ir.types@.len()
                    &&& zst_spec(*ir, item.typ as int) is Ok
                    &&& (item.is_extern ==> item.name is Some)
                    &&& final(self).ctx.names@ == (if item.is_extern {
                        old(self).ctx.names@.push(
                            (
                                id,
                                CName::Native(
                                    match item.name {
                                        Some(n) => n,
                                        None => arbitrary(),
                                    },
                                ),
                            ),
                        )
                    } else {
                        match item.name {
                            Some(n) => old(self).ctx.names@.push((id, CName::Mangled(n, id))),
                            None => old(self).ctx.names@,
                        }
                    })
                    &&& final(self).fn_decls@ == old(self).fn_decls@ + (if zst_spec(
                        *ir,
                        item.typ as int,
                    ) == Ok::<bool, ErrorKind>(true) {
                        Seq::<char>::empty()
                    } else {
                        (if item.is_extern {
                            "\nextern"@
                        } else {
                            "\nstatic"@
                        }) + (if has_attr_thread_local(item.attributes@) {
                            " __thread"@
                        } else {
                            Seq::<char>::empty()
                        }) + " "@ + type_text(ir.types@[item.typ as int], item.typ as int) + " "@
                            + name_text(final(self).ctx.names@, id) + ";"@
                    })
                },
                Err(k) => k == ErrorKind::InternalError && ((item.typ as int) >= ir.types@.len()
                    || !(zst_spec(*ir, item.typ as int) is Ok) || (item.is_extern
                    && item.name is None)),
            },
    {
        if item.typ >= ir.types.len() {
            return Err(ErrorKind::InternalError);
        }
        let zst = match ir.is_zero_sized(item.typ) {
            Ok(b) => b,
            Err(_) => {
                return Err(ErrorKind::InternalError);
            },
        };
        let (_a, _n, _i, _c, _cold, _e, thread_local) = scan_attrs(&item.attributes);
        if item.is_extern {
            let name = match &item.name {
                Some(n) => n.clone(),
                None => {
                    return Err(ErrorKind::InternalError);
                },
            };
            self.ctx.register_name(id, CName::Native(name));
        } else {
            match &item.name {
                Some(n) => {
                    self.ctx.register_name(id, CName::Mangled(n.clone(), id));
                },
                None => {},
            }
        }
        if !zst {
            if item.is_extern {
                self.fn_decls.append("\nextern");
            } else {
                self.fn_decls.append("\nstatic");
            }
            if thread_local {
                self.fn_decls.append(" __thread");
            }
            self.fn_decls.append(" ");
            self.fn_decls.append(get_type(ir, item.typ).as_str());
            self.fn_decls.append(" ");
            self.fn_decls.append(self.ctx.get_name(id).as_str());
            self.fn_decls.append(";");
        }
        Ok(())
    }

    /// Writes a constant's declaration.
    pub fn write_const_decl(&mut self, ir: &IrCtx, id: usize, item: &Const) -> (r: Result<
        (),
        ErrorKind,
    >)
        requires
            ir.wf(),
        ensures
            final(self).fn_bodies@ == old(self).fn_bodies@,
            final(self).ctx.counter() == old(self).ctx.counter(),
            match r {
                Ok(()) => {
                    &&& (item.typ as int) < ir.types@.len()
                    &&& final(self).ctx.names@ == (match item.name {
                        Some(n) => old(self).ctx.names@.push((id, CName::Mangled(n, id))),
                        None => old(self).ctx.names@,
                    })
                    &&& final(self).fn_decls@ == old(self).fn_decls@ + "\nconst static "@
                        + type_text(ir.types@[item.typ as int], item.typ as int) + " "@
                        + name_text(final(self).ctx.names@, id) + ";"@
                },
                Err(k) => k == ErrorKind::InternalError && (item.typ as int) >= ir.types@.len(),
            },
    {
        if item.typ >= ir.types.len() {
            return Err(ErrorKind::InternalError);
        }
        match &item.name {
            Some(n) => {
                self.ctx.register_name(id, CName::Mangled(n.clone(), id));
            },
            None => {},
        }
        self.fn_decls.append("\nconst static ");
        self.fn_decls.append(get_type(ir, item.typ).as_str());
        self.fn_decls.append(" ");
        self.fn_decls.append(self.ctx.get_name(id).as_str());
        self.fn_decls.append(";");
        Ok(())
    }

    /// Writes a constant's definition; the initializer is emitted in
    /// constant-initializer mode, where C forbids compound-literal casts.
    pub fn write_const(&mut self, ir: &IrCtx, id: usize, item: &Const) -> (r: Result<
        (),
        ErrorKind,
    >)
        requires
            ir.wf(),
        ensures
            final(self).fn_decls@ == old(self).fn_decls@,
            final(self).in_const_init == (if r is Ok {
                false
            } else {
                old(self).in_const_init
            }),
            final(self).indent == old(self).indent,
            final(self).debug_info == old(self).debug_info,
            final(self).ctx == old(self).ctx,
            match r {
                Ok(()) => (item.typ as int) < ir.types@.len() && expr_emittable(*ir, item.init)
                    && final(self).fn_bodies@ == old(self).fn_bodies@ + "\nconst static "@
                    + type_text(ir.types@[item.typ as int], item.typ as int) + " "@ + name_text(
                    old(self).ctx.names@,
                    id,
                ) + " = "@ + emit_expr(
                    *ir,
                    old(self).ctx.names@,
                    item.init,
                    old(self).indent as int,
                    true,
                    false,
                    old(self).debug_info,
                ) + ";\n"@,
                Err(k) => k == ErrorKind::InternalError && ((item.typ as int) >= ir.types@.len()
                    || !expr_emittable(*ir, item.init)),
            },
    {
        if item.typ >= ir.types.len() {
            return Err(ErrorKind::InternalError);
        }
        if !validate_expr(ir, &item.init) {
            return Err(ErrorKind::InternalError);
        }
        self.fn_bodies.append("\nconst static ");
        self.fn_bodies.append(get_type(ir, item.typ).as_str());
        self.fn_bodies.append(" ");
        self.fn_bodies.append(self.ctx.get_name(id).as_str());
        self.fn_bodies.append(" = ");
        self.in_const_init = true;
        let ind = self.indent;
        let dbg = self.debug_info;
        emit_expr_to(ir, &self.ctx, &mut self.fn_bodies, &item.init, ind, true, false, dbg);
        self.in_const_init = false;
        self.fn_bodies.append(";\n");
        Ok(())
    }

    /// Writes a function's body.  Functions without a body produce nothing;
    /// a function with a parameter of the `never` type can never be legally
    /// called, so its body is a single `__builtin_unreachable()`.
    #[verifier::rlimit(100)]
    #[verifier::spinoff_prover]
    pub fn write_function_body(&mut self, ir: &IrCtx, id: usize, item: &Function) -> (r: Result<
        (),
        ErrorKind,
    >)
        requires
            ir.wf(),
        ensures
            final(self).fn_decls@ == old(self).fn_decls@,
            match r {
                Ok(()) => match item.body {
                    None => final(self).fn_bodies@ == old(self).fn_bodies@,
                    Some(body) => signature_emittable(*ir, *item) && final(self).fn_bodies@ == old(
                        self,
                    ).fn_bodies@ + function_body_text(
                        *ir,
                        old(self).ctx.names@,
                        old(self).file_paths@,
                        id,
                        *item,
                        body,
                        !has_attr_export(item.attributes@) && !old(self).debug_info,
                        old(self).debug_info,
                    ),
                },
                Err(k) => k == ErrorKind::InternalError && (match item.body {
                    None => false,
                    Some(body) => !signature_emittable(*ir, *item) || (exists|d: int|
                        0 <= d < body.local_defs@.len() && ((#[trigger] body.local_defs@[d]).typ
                            as int) >= ir.types@.len()) || !stmts_emittable_n(
                        *ir,
                        body.statements@,
                        body.statements@.len() as int,
                    ),
                }),
            },
    {
        let ghost names = self.ctx.names@;
        let body = match &item.body {
            Some(b) => b,
            None => {
                return Ok(());
            },
        };
        let (_a, _n, _i, _c, _cold, export, _tl) = scan_attrs(&item.attributes);
        let is_static = !export && !self.debug_info;
        let dbg = self.debug_info;
        {
            let r = write_function_signature(
                ir,
                &self.ctx,
                &mut self.fn_bodies,
                id,
                item,
                is_static,
                true,
            );
            if r.is_err() {
                proof {
                    assert(self.fn_bodies@ =~= old(self).fn_bodies@);
                }
                return Err(ErrorKind::InternalError);
            }
        }
        self.fn_bodies.append("{\n");
        let nargs = item.args.len();
        let mut never_arg = false;
        let mut i: usize = 0;
        while i < nargs
            invariant
                ir.wf(),
                nargs == item.args@.len(),
                i <= nargs,
                signature_emittable(*ir, *item),
                never_arg == exists|k: int|
                    0 <= k < i && ir.types@[(#[trigger] item.args@[k]).ty as int] == Ty::Builtin(
                        BuiltinType::Never,
                    ),
            decreases nargs - i,
        {
            if never_returns(ir, item.args[i].ty) {
                never_arg = true;
            }
            i = i + 1;
        }
        let ghost mid = self.fn_bodies@;
        if never_arg {
            if !dbg {
                append_spaces(&mut self.fn_bodies, 2);
            }
            self.fn_bodies.append("__builtin_unreachable();");
            if !dbg {
                self.fn_bodies.append("\n");
            }
            proof {
                assert(self.fn_bodies@ =~= mid + spaces_d(dbg, 2) + "__builtin_unreachable();"@
                    + endl_text(dbg));
            }
        } else {
            let ndefs = body.local_defs.len();
            let mut k: usize = 0;
            while k < ndefs
                invariant
                    ir.wf(),
                    names == self.ctx.names@,
                    ndefs == body.local_defs@.len(),
                    k <= ndefs,
                    self.debug_info == dbg,
                    self.fn_decls@ == old(self).fn_decls@,
                    self.file_paths@ == old(self).file_paths@,
                    item.body matches Some(b2) && b2 == *body,
                    self.fn_bodies@ == mid + local_defs_text(*ir, names, body.local_defs@, k as int, 2, dbg),
                decreases ndefs - k,
            {
                let def = body.local_defs[k];
                if def.typ >= ir.types.len() {
                    return Err(ErrorKind::InternalError);
                }
                if !dbg {
                    append_spaces(&mut self.fn_bodies, 2);
                }
                self.fn_bodies.append(get_type(ir, def.typ).as_str());
                self.fn_bodies.append(" ");
                self.fn_bodies.append(self.ctx.get_name(def.id.id).as_str());
                self.fn_bodies.append(";\n");
                proof {
                    assert(self.fn_bodies@ =~= mid + local_defs_text(*ir, names, body.local_defs@, k + 1, 2, dbg));
                }
                k = k + 1;
            }
            let nstmts = body.statements.len();
            let ghost mid2 = self.fn_bodies@;
            let mut last_key: Option<(usize, usize)> = None;
            let mut j: usize = 0;
            while j < nstmts
                invariant
                    ir.wf(),
                    names == self.ctx.names@,
                    nstmts == body.statements@.len(),
                    j <= nstmts,
                    self.debug_info == dbg,
                    self.fn_decls@ == old(self).fn_decls@,
                    item.body matches Some(b2) && b2 == *body,
                    stmts_emittable_n(*ir, body.statements@, j as int),
                    !dbg ==> self.fn_bodies@ == mid2 + emit_stmts_n(*ir, names, body.statements@, j as int, 2, false, dbg),
                    self.file_paths@ == old(self).file_paths@,
                    dbg ==> self.fn_bodies@ == mid2 + emit_stmts_dbg_n(*ir, names, old(self).file_paths@, body.statements@, j as int, 2, false, None).0,
                    dbg ==> last_key == emit_stmts_dbg_n(*ir, names, old(self).file_paths@, body.statements@, j as int, 2, false, None).1,
                decreases nstmts - j,
            {
                if !validate_stmt(ir, &body.statements[j]) {
                    proof {
                        lemma_stmts_not_emittable(*ir, body.statements@, j as int, nstmts as int);
                    }
                    return Err(ErrorKind::InternalError);
                }
                if dbg {
                    let key: Option<(usize, usize)> = match &body.statements[j] {
                        Statement::Expression(e) => match e.span {
                            Some(sp) => Some((sp.file, sp.line)),
                            None => None,
                        },
                        Statement::Label(_) => None,
                    };
                    match key {
                        Some(k) => {
                            let same = match last_key {
                                Some(p) => p.0 == k.0 && p.1 == k.1,
                                None => false,
                            };
                            if !same {
                                self.fn_bodies.append("\n#line ");
                                self.fn_bodies.append(
                                    u128_dec((k.1 as u128) + 1).as_str(),
                                );
                                if k.0 < self.file_paths.len() {
                                    let path = self.file_paths[k.0].clone();
                                    self.fn_bodies.append(" \"");
                                    self.fn_bodies.append(path.as_str());
                                    self.fn_bodies.append("\"");
                                }
                                self.fn_bodies.append("\n");
                            }
                            last_key = Some(k);
                        },
                        None => {
                            last_key = None;
                        },
                    }
                }
                emit_stmt_to(ir, &self.ctx, &mut self.fn_bodies, &body.statements[j], 2, false, dbg);
                proof {
                    if !dbg {
                        assert(self.fn_bodies@ =~= mid2 + emit_stmts_n(*ir, names, body.statements@, j + 1, 2, false, dbg));
                    } else {
                        assert(self.fn_bodies@ =~= mid2 + emit_stmts_dbg_n(*ir, names, old(self).file_paths@, body.statements@, j + 1, 2, false, None).0);
                    }
                }
                j = j + 1;
            }
        }
        self.fn_bodies.append("}\n");
        proof {
            assert(self.fn_bodies@ =~= old(self).fn_bodies@ + function_body_text(
                *ir,
                names,
                old(self).file_paths@,
                id,
                *item,
                match item.body {
                    Some(b) => b,
                    None => arbitrary(),
                },
                is_static,
                dbg,
            ));
        }
        Ok(())
    }
}

} // verus!
