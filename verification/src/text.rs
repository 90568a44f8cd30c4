//! Text helpers: decimal numerals, prefixed names and the reserved words of the target language.

use vstd::prelude::*;

verus! {

/// The numeral character for a decimal digit.
pub open spec fn digit_char(d: nat) -> char {
    if d == 0 { '0' }
    else if d == 1 { '1' }
    else if d == 2 { '2' }
    else if d == 3 { '3' }
    else if d == 4 { '4' }
    else if d == 5 { '5' }
    else if d == 6 { '6' }
    else if d == 7 { '7' }
    else if d == 8 { '8' }
    else { '9' }
}

/// The decimal numeral of `n`, most significant digit first, without leading zeros.
pub open spec fn decimal(n: nat) -> Seq<char>
    decreases n,
{
    if n < 10 {
        seq![digit_char(n)]
    } else {
        decimal(n / 10).push(digit_char(n % 10))
    }
}

/// Appends the numeral character of the digit `d`.
pub fn push_digit(s: &mut String, d: usize)
    requires
        d < 10,
    ensures
        final(s)@ == old(s)@.push(digit_char(d as nat)),
{
    proof {
        reveal_strlit("0");
        reveal_strlit("1");
        reveal_strlit("2");
        reveal_strlit("3");
        reveal_strlit("4");
        reveal_strlit("5");
        reveal_strlit("6");
        reveal_strlit("7");
        reveal_strlit("8");
        reveal_strlit("9");
    }
    if d == 0 {
        s.append("0");
    } else if d == 1 {
        s.append("1");
    } else if d == 2 {
        s.append("2");
    } else if d == 3 {
        s.append("3");
    } else if d == 4 {
        s.append("4");
    } else if d == 5 {
        s.append("5");
    } else if d == 6 {
        s.append("6");
    } else if d == 7 {
        s.append("7");
    } else if d == 8 {
        s.append("8");
    } else {
        s.append("9");
    }
}

/// Appends the decimal numeral of `n`.
pub fn push_decimal(s: &mut String, n: u64)
    ensures
        final(s)@ == old(s)@ + decimal(n as nat),
    decreases n,
{
    if n >= 10 {
        push_decimal(s, n / 10);
    }
    push_digit(s, (n % 10) as usize);
}


/// `name` equals the literal `lit`.
pub fn eq_lit(name: &String, lit: &str) -> (b: bool)
    ensures
        b == (name@ == lit@),
{
    let l = String::from_str(lit);
    *name == l
}

/// The concatenation of `a` and `b` as a new string.
pub fn concat(a: &str, b: &str) -> (res: String)
    ensures
        res@ == a@ + b@,
{
    let mut res = String::from_str(a);
    res.append(b);
    res
}

/// The reserved words of the Rust dialect that the generated bindings are written in.
pub open spec fn is_keyword(s: Seq<char>) -> bool {
    ||| s == "self"@ ||| s == "static"@ ||| s == "as"@ ||| s == "break"@
    ||| s == "const"@ ||| s == "copy"@ ||| s == "do"@ ||| s == "else"@
    ||| s == "enum"@ ||| s == "extern"@ ||| s == "false"@ ||| s == "fn"@
    ||| s == "for"@ ||| s == "if"@ ||| s == "impl"@ ||| s == "let"@
    ||| s == "__log_level"@ ||| s == "loop"@ ||| s == "match"@ ||| s == "mod"@
    ||| s == "mut"@ ||| s == "once"@ ||| s == "priv"@ ||| s == "pub"@
    ||| s == "pure"@ ||| s == "ref"@ ||| s == "return"@ ||| s == "struct"@
    ||| s == "super"@ ||| s == "true"@ ||| s == "trait"@ ||| s == "type"@
    ||| s == "unsafe"@ ||| s == "use"@ ||| s == "while"@ ||| s == "be"@
}

/// Whether `name` is a reserved word of the target language.
pub fn is_keyword_name(name: &String) -> (b: bool)
    ensures
        b == is_keyword(name@),
{
    eq_lit(name, "self") || eq_lit(name, "static") || eq_lit(name, "as") || eq_lit(name, "break")
        || eq_lit(name, "const") || eq_lit(name, "copy") || eq_lit(name, "do") || eq_lit(name, "else")
        || eq_lit(name, "enum") || eq_lit(name, "extern") || eq_lit(name, "false") || eq_lit(name, "fn")
        || eq_lit(name, "for") || eq_lit(name, "if") || eq_lit(name, "impl") || eq_lit(name, "let")
        || eq_lit(name, "__log_level") || eq_lit(name, "loop") || eq_lit(name, "match") || eq_lit(name, "mod")
        || eq_lit(name, "mut") || eq_lit(name, "once") || eq_lit(name, "priv") || eq_lit(name, "pub")
        || eq_lit(name, "pure") || eq_lit(name, "ref") || eq_lit(name, "return") || eq_lit(name, "struct")
        || eq_lit(name, "super") || eq_lit(name, "true") || eq_lit(name, "trait") || eq_lit(name, "type")
        || eq_lit(name, "unsafe") || eq_lit(name, "use") || eq_lit(name, "while") || eq_lit(name, "be")
}

/// The names of primitive types, which may not name a generated type.
pub open spec fn is_primitive_type_name(s: Seq<char>) -> bool {
    ||| s == "bool"@ ||| s == "uint"@ ||| s == "u8"@ ||| s == "u16"@ ||| s == "u32"@
    ||| s == "f32"@ ||| s == "f64"@ ||| s == "i8"@ ||| s == "i16"@ ||| s == "i32"@
    ||| s == "i64"@ ||| s == "Self"@ ||| s == "str"@
}

/// Whether `name` is the name of a primitive type.
pub fn is_primitive_type_name_exec(name: &String) -> (b: bool)
    ensures
        b == is_primitive_type_name(name@),
{
    eq_lit(name, "bool") || eq_lit(name, "uint") || eq_lit(name, "u8") || eq_lit(name, "u16")
        || eq_lit(name, "u32") || eq_lit(name, "f32") || eq_lit(name, "f64") || eq_lit(name, "i8")
        || eq_lit(name, "i16") || eq_lit(name, "i32") || eq_lit(name, "i64") || eq_lit(name, "Self")
        || eq_lit(name, "str")
}

/// The decimal numeral of a signed integer, with a leading `-` when negative.
pub open spec fn int_text(v: int) -> Seq<char> {
    if v < 0 {
        "-"@ + decimal((-v) as nat)
    } else {
        decimal(v as nat)
    }
}

/// Appends the decimal numeral of the signed integer `v`.
pub fn push_int(s: &mut String, v: i64)
    ensures
        final(s)@ == old(s)@ + int_text(v as int),
{
    if v < 0 {
        s.append("-");
        let m: u64 = ((-(v + 1)) as u64) + 1;
        push_decimal(s, m);
    } else {
        push_decimal(s, v as u64);
    }
}

} // verus!
