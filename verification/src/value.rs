//! The value model: a type-erased runtime value as plain data, with
//! deterministic display-style and debug-style text renderings.

use vstd::prelude::*;

verus! {

/// Spec-level model of a runtime value.
#[verifier::ext_equal]
pub enum ValueV {
    Unit,
    Bool(bool),
    Int(int),
    Text(Seq<char>),
    List(Seq<ValueV>),
}

/// A concrete, type-erased runtime value: anything a step argument or a
/// story constant can hold.
#[derive(Debug, PartialEq, Eq)]
pub enum ValueData {
    Unit,
    Bool(bool),
    Int(i64),
    Text(String),
    List(Vec<ValueData>),
}

pub open spec fn value_view(v: ValueData) -> ValueV
    decreases v,
{
    match v {
        ValueData::Unit => ValueV::Unit,
        ValueData::Bool(b) => ValueV::Bool(b),
        ValueData::Int(i) => ValueV::Int(i as int),
        ValueData::Text(s) => ValueV::Text(s@),
        ValueData::List(l) => ValueV::List(values_view(l@)),
    }
}

pub open spec fn values_view(l: Seq<ValueData>) -> Seq<ValueV>
    decreases l,
{
    if l.len() == 0 {
        Seq::empty()
    } else {
        seq![value_view(l[0])] + values_view(l.drop_first())
    }
}

impl View for ValueData {
    type V = ValueV;

    open spec fn view(&self) -> ValueV {
        value_view(*self)
    }
}

pub proof fn lemma_values_view(l: Seq<ValueData>)
    ensures
        values_view(l).len() == l.len(),
        forall|i: int| 0 <= i < l.len() ==> values_view(l)[i] == value_view(#[trigger] l[i]),
    decreases l,
{
    if l.len() > 0 {
        lemma_values_view(l.drop_first());
        assert forall|i: int| 0 <= i < l.len() implies values_view(l)[i] == value_view(
            #[trigger] l[i],
        ) by {
            if i > 0 {
                assert(l.drop_first()[i - 1] == l[i]);
            }
        }
    }
}

/// How one character appears inside a debug-style quoted string.
pub open spec fn escaped_char(c: char) -> Seq<char> {
    if c == '"' {
        seq!['\\', '"']
    } else if c == '\\' {
        seq!['\\', '\\']
    } else if c == '\n' {
        seq!['\\', 'n']
    } else if c == '\r' {
        seq!['\\', 'r']
    } else if c == '\t' {
        seq!['\\', 't']
    } else {
        seq![c]
    }
}

pub open spec fn escaped_text(s: Seq<char>) -> Seq<char>
    decreases s.len(),
{
    if s.len() == 0 {
        Seq::empty()
    } else {
        escaped_char(s[0]) + escaped_text(s.drop_first())
    }
}

pub open spec fn decimal_digit(d: int) -> char {
    if d == 0 {
        '0'
    } else if d == 1 {
        '1'
    } else if d == 2 {
        '2'
    } else if d == 3 {
        '3'
    } else if d == 4 {
        '4'
    } else if d == 5 {
        '5'
    } else if d == 6 {
        '6'
    } else if d == 7 {
        '7'
    } else if d == 8 {
        '8'
    } else {
        '9'
    }
}

/// The decimal digits of a nonnegative integer, most significant first.
pub open spec fn decimal_digits(n: int) -> Seq<char>
    recommends
        n >= 0,
    decreases n,
    via decimal_digits_decreases
{
    if n < 10 {
        seq![decimal_digit(n)]
    } else {
        decimal_digits(n / 10).push(decimal_digit(n % 10))
    }
}

#[via_fn]
proof fn decimal_digits_decreases(n: int) {
    if n >= 10 {
        assert(0 <= n / 10 < n) by (nonlinear_arith)
            requires
                n >= 10,
        ;
    }
}

/// The decimal rendering of an integer, with a leading minus sign when
/// negative.
pub open spec fn decimal_int(n: int) -> Seq<char> {
    if n < 0 {
        seq!['-'] + decimal_digits(-n)
    } else {
        decimal_digits(n)
    }
}

/// The debug-style rendering of a value: strings quoted and escaped,
/// lists bracketed with elements separated by a comma and a space.
pub open spec fn debug_text(v: ValueV) -> Seq<char>
    decreases v,
{
    match v {
        ValueV::Unit => "()"@,
        ValueV::Bool(b) => if b {
            "true"@
        } else {
            "false"@
        },
        ValueV::Int(i) => decimal_int(i),
        ValueV::Text(s) => seq!['"'] + escaped_text(s) + seq!['"'],
        ValueV::List(l) => seq!['['] + debug_list(l) + seq![']'],
    }
}

pub open spec fn debug_list(l: Seq<ValueV>) -> Seq<char>
    decreases l,
{
    if l.len() == 0 {
        Seq::empty()
    } else if l.len() == 1 {
        debug_text(l[0])
    } else {
        debug_text(l[0]) + ", "@ + debug_list(l.drop_first())
    }
}

/// The display-style rendering: like debug, except that text appears
/// verbatim, without quotes or escapes.
pub open spec fn display_text(v: ValueV) -> Seq<char> {
    match v {
        ValueV::Text(s) => s,
        _ => debug_text(v),
    }
}

/// Relies on String::push: appends exactly the given character.
#[verifier::external_body]
pub(crate) fn push_char(s: &mut String, c: char)
    ensures
        final(s)@ == old(s)@.push(c),
{
    s.push(c);
}

/// Collects a character vector into a string with the same characters.
pub fn chars_to_string(v: &Vec<char>) -> (r: String)
    ensures
        r@ == v@,
{
    let mut r = String::new();
    let mut i: usize = 0;
    while i < v.len()
        invariant
            i <= v@.len(),
            r@ == v@.take(i as int),
        decreases v@.len() - i,
    {
        push_char(&mut r, v[i]);
        assert(v@.take(i as int).push(v@[i as int]) =~= v@.take(i as int + 1));
        i = i + 1;
    }
    assert(v@.take(v@.len() as int) =~= v@);
    r
}

/// Reads a string out into a vector of its characters.
pub fn str_to_chars(s: &str) -> (r: Vec<char>)
    ensures
        r@ == s@,
{
    let n = s.unicode_len();
    let mut r: Vec<char> = Vec::new();
    let mut i: usize = 0;
    while i < n
        invariant
            n == s@.len(),
            i <= n,
            r@ == s@.take(i as int),
        decreases n - i,
    {
        r.push(s.get_char(i));
        assert(s@.take(i as int).push(s@[i as int]) =~= s@.take(i as int + 1));
        i = i + 1;
    }
    assert(s@.take(s@.len() as int) =~= s@);
    r
}

fn digit_char(d: u64) -> (c: char)
    requires
        d < 10,
    ensures
        c == decimal_digit(d as int),
{
    if d == 0 {
        '0'
    } else if d == 1 {
        '1'
    } else if d == 2 {
        '2'
    } else if d == 3 {
        '3'
    } else if d == 4 {
        '4'
    } else if d == 5 {
        '5'
    } else if d == 6 {
        '6'
    } else if d == 7 {
        '7'
    } else if d == 8 {
        '8'
    } else {
        '9'
    }
}

fn u64_digit_chars(x: u64) -> (r: Vec<char>)
    ensures
        r@ == decimal_digits(x as int),
{
    let mut r: Vec<char> = Vec::new();
    let mut y = x;
    while y >= 10
        invariant
            decimal_digits(x as int) == decimal_digits(y as int) + r@,
        decreases y,
    {
        assert(decimal_digits(y as int) == decimal_digits(y as int / 10).push(
            decimal_digit(y as int % 10),
        ));
        let d = digit_char(y % 10);
        r.insert(0, d);
        assert(decimal_digits(y as int / 10).push(decimal_digit(y as int % 10)) + r@.drop_first()
            =~= decimal_digits(y as int / 10) + r@);
        y = y / 10;
    }
    let d = digit_char(y);
    r.insert(0, d);
    assert(decimal_digits(y as int) + r@.drop_first() =~= r@);
    r
}

/// Renders a signed integer in decimal.
pub fn i64_to_string(n: i64) -> (r: String)
    ensures
        r@ == decimal_int(n as int),
{
    if n >= 0 {
        let digits = u64_digit_chars(n as u64);
        chars_to_string(&digits)
    } else {
        let m: u64 = (-(n as i128)) as u64;
        assert(m as int == -(n as int));
        let digits = u64_digit_chars(m);
        let mut chars: Vec<char> = Vec::new();
        chars.push('-');
        let mut i: usize = 0;
        while i < digits.len()
            invariant
                i <= digits@.len(),
                chars@ == seq!['-'] + digits@.take(i as int),
            decreases digits@.len() - i,
        {
            chars.push(digits[i]);
            assert(seq!['-'] + digits@.take(i as int + 1) =~= (seq!['-'] + digits@.take(
                i as int,
            )).push(digits@[i as int]));
            i = i + 1;
        }
        assert(digits@.take(digits@.len() as int) =~= digits@);
        chars_to_string(&chars)
    }
}

proof fn lemma_escaped_text_snoc(s: Seq<char>, c: char)
    ensures
        escaped_text(s.push(c)) == escaped_text(s) + escaped_char(c),
    decreases s.len(),
{
    if s.len() == 0 {
        let p = s.push(c);
        assert(p[0] == c);
        assert(p.drop_first() =~= Seq::<char>::empty());
        assert(escaped_text(p.drop_first()) == Seq::<char>::empty());
        assert(escaped_text(p) == escaped_char(c) + escaped_text(p.drop_first()));
        assert(escaped_char(c) + Seq::<char>::empty() =~= escaped_char(c));
        assert(escaped_text(s) + escaped_char(c) =~= escaped_char(c));
    } else {
        assert(s.push(c).drop_first() =~= s.drop_first().push(c));
        lemma_escaped_text_snoc(s.drop_first(), c);
        assert(escaped_char(s[0]) + (escaped_text(s.drop_first()) + escaped_char(c))
            =~= escaped_text(s) + escaped_char(c));
    }
}

/// Renders the characters of a string in their escaped, debug-style form.
fn escape_str(s: &str) -> (r: Vec<char>)
    ensures
        r@ == escaped_text(s@),
{
    let t = str_to_chars(s);
    let mut r: Vec<char> = Vec::new();
    let mut i: usize = 0;
    while i < t.len()
        invariant
            t@ == s@,
            i <= t@.len(),
            r@ == escaped_text(t@.take(i as int)),
        decreases t@.len() - i,
    {
        let c = t[i];
        if c == '"' {
            r.push('\\');
            r.push('"');
        } else if c == '\\' {
            r.push('\\');
            r.push('\\');
        } else if c == '\n' {
            r.push('\\');
            r.push('n');
        } else if c == '\r' {
            r.push('\\');
            r.push('r');
        } else if c == '\t' {
            r.push('\\');
            r.push('t');
        } else {
            r.push(c);
        }
        proof {
            lemma_escaped_text_snoc(t@.take(i as int), t@[i as int]);
            assert(t@.take(i as int).push(t@[i as int]) =~= t@.take(i as int + 1));
            assert(r@ =~= escaped_text(t@.take(i as int)) + escaped_char(t@[i as int]));
        }
        i = i + 1;
    }
    assert(t@.take(t@.len() as int) =~= t@);
    r
}

proof fn lemma_debug_list_snoc(l: Seq<ValueV>, v: ValueV)
    ensures
        debug_list(l.push(v)) == if l.len() == 0 {
            debug_text(v)
        } else {
            debug_list(l) + ", "@ + debug_text(v)
        },
    decreases l.len(),
{
    if l.len() == 0 {
        assert(l.push(v)[0] == v);
    } else {
        assert(l.push(v).drop_first() =~= l.drop_first().push(v));
        lemma_debug_list_snoc(l.drop_first(), v);
        if l.len() == 1 {
            assert(debug_list(l.push(v)) == debug_text(l[0]) + ", "@ + debug_text(v));
        } else {
            assert(debug_text(l[0]) + ", "@ + (debug_list(l.drop_first()) + ", "@ + debug_text(v))
                =~= (debug_text(l[0]) + ", "@ + debug_list(l.drop_first())) + ", "@ + debug_text(
                v,
            ));
        }
    }
}

/// Renders a value in its debug-style textual form.
pub fn render_debug(v: &ValueData) -> (r: String)
    ensures
        r@ == debug_text(v@),
    decreases *v,
{
    match v {
        ValueData::Unit => String::from_str("()"),
        ValueData::Bool(b) => {
            if *b {
                String::from_str("true")
            } else {
                String::from_str("false")
            }
        },
        ValueData::Int(i) => i64_to_string(*i),
        ValueData::Text(s) => {
            let mut chars: Vec<char> = Vec::new();
            chars.push('"');
            let mut esc = escape_str(s.as_str());
            assert(chars@ + esc@ =~= seq!['"'] + escaped_text(s@));
            chars.append(&mut esc);
            chars.push('"');
            assert(chars@ =~= seq!['"'] + escaped_text(s@) + seq!['"']);
            chars_to_string(&chars)
        },
        ValueData::List(l) => {
            let ghost lv = values_view(l@);
            proof {
                lemma_values_view(l@);
            }
            let mut chars: Vec<char> = Vec::new();
            chars.push('[');
            let mut i: usize = 0;
            while i < l.len()
                invariant
                    i <= l@.len(),
                    lv == values_view(l@),
                    lv.len() == l@.len(),
                    forall|j: int| 0 <= j < l@.len() ==> lv[j] == value_view(#[trigger] l@[j]),
                    chars@ == seq!['['] + debug_list(lv.take(i as int)),
                    *v == ValueData::List(*l),
                decreases l@.len() - i,
            {
                if i > 0 {
                    chars.push(',');
                    chars.push(' ');
                }
                proof {
                    broadcast use vstd::std_specs::vec::axiom_vec_index_decreases;

                    reveal_strlit(", ");
                    assert((*v)->List_0 == *l);
                    assert(decreases_to!(*v => (*v)->List_0));
                    assert(decreases_to!(*l => l@[i as int]));
                    assert(decreases_to!(*v => l@[i as int]));
                }
                let piece = render_debug(&l[i]);
                let piece_chars = str_to_chars(piece.as_str());
                let mut pc = piece_chars;
                chars.append(&mut pc);
                proof {
                    lemma_debug_list_snoc(lv.take(i as int), lv[i as int]);
                    assert(lv.take(i as int).push(lv[i as int]) =~= lv.take(i as int + 1));
                    if i == 0 {
                        assert(chars@ =~= seq!['['] + debug_list(lv.take(i as int + 1)));
                    } else {
                        assert(chars@ =~= seq!['['] + (debug_list(lv.take(i as int)) + ", "@
                            + debug_text(lv[i as int])));
                        assert(seq!['['] + (debug_list(lv.take(i as int)) + ", "@ + debug_text(
                            lv[i as int],
                        )) =~= seq!['['] + debug_list(lv.take(i as int + 1)));
                    }
                }
                i = i + 1;
            }
            chars.push(']');
            proof {
                assert(lv.take(lv.len() as int) =~= lv);
                assert(chars@ =~= seq!['['] + debug_list(lv) + seq![']']);
            }
            chars_to_string(&chars)
        },
    }
}

/// Renders a value in its display-style textual form.
pub fn render_display(v: &ValueData) -> (r: String)
    ensures
        r@ == display_text(v@),
{
    match v {
        ValueData::Text(s) => s.clone(),
        _ => render_debug(v),
    }
}

/// Produces a value with the same abstract contents.
pub fn duplicate(v: &ValueData) -> (r: ValueData)
    ensures
        r@ == v@,
    decreases *v,
{
    match v {
        ValueData::Unit => ValueData::Unit,
        ValueData::Bool(b) => ValueData::Bool(*b),
        ValueData::Int(i) => ValueData::Int(*i),
        ValueData::Text(s) => ValueData::Text(s.clone()),
        ValueData::List(l) => {
            let mut out: Vec<ValueData> = Vec::new();
            let mut i: usize = 0;
            while i < l.len()
                invariant
                    i <= l@.len(),
                    out@.len() == i,
                    forall|j: int| 0 <= j < i ==> (#[trigger] out@[j])@ == l@[j]@,
                    *v == ValueData::List(*l),
                decreases l@.len() - i,
            {
                proof {
                    broadcast use vstd::std_specs::vec::axiom_vec_index_decreases;

                    assert((*v)->List_0 == *l);
                    assert(decreases_to!(*v => (*v)->List_0));
                    assert(decreases_to!(*l => l@[i as int]));
                    assert(decreases_to!(*v => l@[i as int]));
                }
                let d = duplicate(&l[i]);
                out.push(d);
                i = i + 1;
            }
            proof {
                lemma_values_view(out@);
                lemma_values_view(l@);
                assert forall|j: int| 0 <= j < l@.len() implies values_view(out@)[j]
                    == values_view(l@)[j] by {
                    assert(out@[j]@ == l@[j]@);
                }
                assert(values_view(out@) =~= values_view(l@));
            }
            ValueData::List(out)
        },
    }
}

/// A boxed, type-erased value as handed out by the introspection layer.
#[derive(Debug, PartialEq, Eq)]
pub struct BoxedValue {
    data: ValueData,
}

impl View for BoxedValue {
    type V = ValueV;

    closed spec fn view(&self) -> ValueV {
        self.data@
    }
}

impl BoxedValue {
    /// Boxes a concrete value.
    pub fn new(data: ValueData) -> (r: Self)
        ensures
            r@ == data@,
    {
        BoxedValue { data }
    }

    /// The wrapped value.
    pub fn data(&self) -> (r: &ValueData)
        ensures
            r@ == self@,
    {
        &self.data
    }

    /// The debug-style rendering of the wrapped value.
    pub fn debug_string(&self) -> (r: String)
        ensures
            r@ == debug_text(self@),
    {
        render_debug(&self.data)
    }

    /// The display-style rendering of the wrapped value.
    pub fn display_string(&self) -> (r: String)
        ensures
            r@ == display_text(self@),
    {
        render_display(&self.data)
    }
}

} // verus!
