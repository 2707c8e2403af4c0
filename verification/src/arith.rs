//! Arithmetic expressions of the script language: numbers, `+ - * /` and
//! parentheses, with the usual precedence and left association.
use vstd::prelude::*;
use crate::text::{is_ws, is_whitespace, slice_vec, string_of, chars_of};

verus! {

/// A parsed arithmetic expression; numbers keep their decimal text.
pub enum Expr {
    Num(String),
    Add(Box<Expr>, Box<Expr>),
    Sub(Box<Expr>, Box<Expr>),
    Mul(Box<Expr>, Box<Expr>),
    Div(Box<Expr>, Box<Expr>),
}

/// The plain-value model of [`Expr`].
pub enum ExprModel {
    Num(Seq<char>),
    Add(Box<ExprModel>, Box<ExprModel>),
    Sub(Box<ExprModel>, Box<ExprModel>),
    Mul(Box<ExprModel>, Box<ExprModel>),
    Div(Box<ExprModel>, Box<ExprModel>),
}

/// The plain-value model of an expression.
pub open spec fn expr_model(e: Expr) -> ExprModel
    decreases e,
{
    match e {
        Expr::Num(t) => ExprModel::Num(t@),
        Expr::Add(a, b) => ExprModel::Add(Box::new(expr_model(*a)), Box::new(expr_model(*b))),
        Expr::Sub(a, b) => ExprModel::Sub(Box::new(expr_model(*a)), Box::new(expr_model(*b))),
        Expr::Mul(a, b) => ExprModel::Mul(Box::new(expr_model(*a)), Box::new(expr_model(*b))),
        Expr::Div(a, b) => ExprModel::Div(Box::new(expr_model(*a)), Box::new(expr_model(*b))),
    }
}

impl View for Expr {
    type V = ExprModel;

    open spec fn view(&self) -> ExprModel {
        expr_model(*self)
    }
}

/// A character of a number: an ASCII digit or a dot.
pub open spec fn num_char(c: char) -> bool {
    ('0' <= c && c <= '9') || c == '.'
}

/// The end of the run of number characters that starts at `i`.
pub open spec fn num_end(s: Seq<char>, i: int) -> int
    decreases s.len() - i,
{
    if 0 <= i < s.len() && num_char(s[i]) {
        num_end(s, i + 1)
    } else {
        i
    }
}

/// The number of characters of `t` that equal `c`.
pub open spec fn count(t: Seq<char>, c: char) -> nat
    decreases t.len(),
{
    if t.len() == 0 {
        0
    } else {
        count(t.drop_last(), c) + if t.last() == c {
            1nat
        } else {
            0nat
        }
    }
}

/// A run of digits and dots that reads as a decimal number (`f64`'s
/// `FromStr` accepts such a run exactly when it has at least one digit
/// and at most one dot).
pub open spec fn valid_number(t: Seq<char>) -> bool {
    count(t, '.') <= 1 && count(t, '.') < t.len()
}

/// A factor at `i`: a parenthesised expression or a number.
pub open spec fn p_factor(s: Seq<char>, i: int) -> Option<(ExprModel, int)>
    decreases s.len() - i, 0int,
{
    if i < 0 || i >= s.len() {
        None
    } else if s[i] == '(' {
        match p_expr(s, i + 1) {
            Some((e, p)) => if p < s.len() && s[p] == ')' {
                Some((e, p + 1))
            } else {
                None
            },
            None => None,
        }
    } else if num_char(s[i]) {
        let e = num_end(s, i);
        if i < e <= s.len() && valid_number(s.subrange(i, e)) {
            Some((ExprModel::Num(s.subrange(i, e)), e))
        } else {
            None
        }
    } else {
        None
    }
}

/// The rest of a term after `left`: more factors joined by `*` or `/`.
pub open spec fn p_term_rest(s: Seq<char>, left: ExprModel, i: int) -> Option<(ExprModel, int)>
    decreases s.len() - i, 1int,
{
    if 0 <= i < s.len() && (s[i] == '*' || s[i] == '/') {
        match p_factor(s, i + 1) {
            Some((r, p)) => {
                let e = if s[i] == '*' {
                    ExprModel::Mul(Box::new(left), Box::new(r))
                } else {
                    ExprModel::Div(Box::new(left), Box::new(r))
                };
                if i < p <= s.len() {
                    p_term_rest(s, e, p)
                } else {
                    None
                }
            },
            None => None,
        }
    } else {
        Some((left, i))
    }
}

/// A term at `i`: factors joined by `*` or `/`.
pub open spec fn p_term(s: Seq<char>, i: int) -> Option<(ExprModel, int)>
    decreases s.len() - i, 2int,
{
    match p_factor(s, i) {
        Some((l, p)) => if i < p <= s.len() {
            p_term_rest(s, l, p)
        } else {
            None
        },
        None => None,
    }
}

/// The rest of an expression after `left`: more terms joined by `+`
/// or `-`.
pub open spec fn p_expr_rest(s: Seq<char>, left: ExprModel, i: int) -> Option<(ExprModel, int)>
    decreases s.len() - i, 3int,
{
    if 0 <= i < s.len() && (s[i] == '+' || s[i] == '-') {
        match p_term(s, i + 1) {
            Some((r, p)) => {
                let e = if s[i] == '+' {
                    ExprModel::Add(Box::new(left), Box::new(r))
                } else {
                    ExprModel::Sub(Box::new(left), Box::new(r))
                };
                if i < p <= s.len() {
                    p_expr_rest(s, e, p)
                } else {
                    None
                }
            },
            None => None,
        }
    } else {
        Some((left, i))
    }
}

/// An expression at `i`: terms joined by `+` or `-`.
pub open spec fn p_expr(s: Seq<char>, i: int) -> Option<(ExprModel, int)>
    decreases s.len() - i, 4int,
{
    match p_term(s, i) {
        Some((l, p)) => if i < p <= s.len() {
            p_expr_rest(s, l, p)
        } else {
            None
        },
        None => None,
    }
}

/// `s` without its white space.
pub open spec fn strip_ws(s: Seq<char>) -> Seq<char>
    decreases s.len(),
{
    if s.len() == 0 {
        s
    } else if is_ws(s.last()) {
        strip_ws(s.drop_last())
    } else {
        strip_ws(s.drop_last()).push(s.last())
    }
}

/// The expression that a text holds once its white space is removed: the
/// longest expression at its start, whatever follows it; nothing for an
/// empty text or a malformed start.
pub open spec fn arith_model(s: Seq<char>) -> Option<ExprModel> {
    let t = strip_ws(s);
    if t.len() == 0 {
        None
    } else {
        match p_expr(t, 0) {
            Some((e, _)) => Some(e),
            None => None,
        }
    }
}

} // verus!

verus! {

fn is_num_char(c: char) -> (r: bool)
    ensures
        r == num_char(c),
{
    ('0' <= c && c <= '9') || c == '.'
}

pub proof fn lemma_num_end(s: Seq<char>, i: int, j: int)
    requires
        0 <= i <= j <= s.len(),
        forall|k: int| i <= k < j ==> num_char(#[trigger] s[k]),
    ensures
        num_end(s, i) == num_end(s, j),
    decreases j - i,
{
    if i < j {
        lemma_num_end(s, i + 1, j);
    }
}

fn parse_number(s: &[char], i: usize) -> (r: Option<(Expr, usize)>)
    requires
        i < s@.len(),
        num_char(s@[i as int]),
    ensures
        r matches Some((e, p)) ==> p_factor(s@, i as int) == Some((e@, p as int)) && i < p <= s@.len(),
        r is None ==> p_factor(s@, i as int) is None,
{
    let n = s.len();
    let mut j = i;
    let mut dots: usize = 0;
    assert(s@.subrange(i as int, i as int) =~= Seq::<char>::empty());
    while j < n && is_num_char(s[j])
        invariant
            i <= j <= n == s@.len(),
            forall|k: int| i <= k < j ==> num_char(#[trigger] s@[k]),
            dots == count(s@.subrange(i as int, j as int), '.'),
            dots <= j - i,
        decreases n - j,
    {
        assert(s@.subrange(i as int, j + 1).drop_last() =~= s@.subrange(i as int, j as int));
        if s[j] == '.' {
            dots = dots + 1;
        }
        j = j + 1;
    }
    proof {
        lemma_num_end(s@, i as int, j as int);
    }
    assert(num_end(s@, j as int) == j);
    if dots <= 1 && dots < j - i {
        let t = slice_vec(s, i, j);
        Some((Expr::Num(string_of(t.as_slice())), j))
    } else {
        None
    }
}

fn parse_factor(s: &[char], i: usize) -> (r: Option<(Expr, usize)>)
    ensures
        r matches Some((e, p)) ==> p_factor(s@, i as int) == Some((e@, p as int)) && i < p <= s@.len(),
        r is None ==> p_factor(s@, i as int) is None,
    decreases s@.len() - i, 0int,
{
    if i >= s.len() {
        return None;
    }
    if s[i] == '(' {
        match parse_expr(s, i + 1) {
            Some((e, p)) => {
                if p < s.len() && s[p] == ')' {
                    Some((e, p + 1))
                } else {
                    None
                }
            },
            None => None,
        }
    } else if is_num_char(s[i]) {
        parse_number(s, i)
    } else {
        None
    }
}

fn parse_term_rest(s: &[char], left: Expr, i: usize) -> (r: Option<(Expr, usize)>)
    requires
        i <= s@.len(),
    ensures
        r matches Some((e, p)) ==> p_term_rest(s@, left@, i as int) == Some((e@, p as int)) && i <= p
            <= s@.len(),
        r is None ==> p_term_rest(s@, left@, i as int) is None,
    decreases s@.len() - i, 1int,
{
    if i < s.len() && (s[i] == '*' || s[i] == '/') {
        match parse_factor(s, i + 1) {
            Some((r, p)) => {
                let ghost lm = left@;
                let ghost rm = r@;
                let e = if s[i] == '*' {
                    Expr::Mul(Box::new(left), Box::new(r))
                } else {
                    Expr::Div(Box::new(left), Box::new(r))
                };
                assert(e@ == (if s@[i as int] == '*' {
                    ExprModel::Mul(Box::new(lm), Box::new(rm))
                } else {
                    ExprModel::Div(Box::new(lm), Box::new(rm))
                }));
                parse_term_rest(s, e, p)
            },
            None => None,
        }
    } else {
        Some((left, i))
    }
}

fn parse_term(s: &[char], i: usize) -> (r: Option<(Expr, usize)>)
    ensures
        r matches Some((e, p)) ==> p_term(s@, i as int) == Some((e@, p as int)) && i < p <= s@.len(),
        r is None ==> p_term(s@, i as int) is None,
    decreases s@.len() - i, 2int,
{
    match parse_factor(s, i) {
        Some((l, p)) => parse_term_rest(s, l, p),
        None => None,
    }
}

fn parse_expr_rest(s: &[char], left: Expr, i: usize) -> (r: Option<(Expr, usize)>)
    requires
        i <= s@.len(),
    ensures
        r matches Some((e, p)) ==> p_expr_rest(s@, left@, i as int) == Some((e@, p as int)) && i <= p
            <= s@.len(),
        r is None ==> p_expr_rest(s@, left@, i as int) is None,
    decreases s@.len() - i, 3int,
{
    if i < s.len() && (s[i] == '+' || s[i] == '-') {
        match parse_term(s, i + 1) {
            Some((r, p)) => {
                let ghost lm = left@;
                let ghost rm = r@;
                let e = if s[i] == '+' {
                    Expr::Add(Box::new(left), Box::new(r))
                } else {
                    Expr::Sub(Box::new(left), Box::new(r))
                };
                assert(e@ == (if s@[i as int] == '+' {
                    ExprModel::Add(Box::new(lm), Box::new(rm))
                } else {
                    ExprModel::Sub(Box::new(lm), Box::new(rm))
                }));
                parse_expr_rest(s, e, p)
            },
            None => None,
        }
    } else {
        Some((left, i))
    }
}

fn parse_expr(s: &[char], i: usize) -> (r: Option<(Expr, usize)>)
    ensures
        r matches Some((e, p)) ==> p_expr(s@, i as int) == Some((e@, p as int)) && i < p <= s@.len(),
        r is None ==> p_expr(s@, i as int) is None,
    decreases s@.len() - i, 4int,
{
    match parse_term(s, i) {
        Some((l, p)) => parse_expr_rest(s, l, p),
        None => None,
    }
}

/// `v` without its white space.
pub fn strip_whitespace(v: &[char]) -> (r: Vec<char>)
    ensures
        r@ == strip_ws(v@),
{
    let mut out: Vec<char> = Vec::new();
    let mut i: usize = 0;
    assert(v@.take(0) =~= Seq::<char>::empty());
    while i < v.len()
        invariant
            i <= v@.len(),
            out@ == strip_ws(v@.take(i as int)),
        decreases v@.len() - i,
    {
        assert(v@.take(i + 1).drop_last() =~= v@.take(i as int));
        if !is_whitespace(v[i]) {
            out.push(v[i]);
        }
        i = i + 1;
    }
    assert(v@.take(v@.len() as int) =~= v@);
    out
}

/// The expression at the start of `text` once its white space is removed;
/// whatever follows the longest well-formed start is ignored.
pub fn parse_arith(text: &str) -> (r: Option<Expr>)
    ensures
        r matches Some(e) ==> arith_model(text@) == Some(e@),
        r is None ==> arith_model(text@) is None,
{
    let v = chars_of(text);
    let t = strip_whitespace(v.as_slice());
    if t.len() == 0 {
        return None;
    }
    match parse_expr(t.as_slice(), 0) {
        Some((e, _)) => Some(e),
        None => None,
    }
}

} // verus!

verus! {

/// A comparison of a condition.
pub enum CmpOp {
    Ge,
    Le,
    Eq,
    Ne,
    Gt,
    Lt,
}

/// The text of a comparison operator.
pub open spec fn op_text(op: CmpOp) -> Seq<char> {
    match op {
        CmpOp::Ge => seq!['>', '='],
        CmpOp::Le => seq!['<', '='],
        CmpOp::Eq => seq!['=', '='],
        CmpOp::Ne => seq!['!', '='],
        CmpOp::Gt => seq!['>'],
        CmpOp::Lt => seq!['<'],
    }
}

/// The operators in the order a condition is tried against them.
pub open spec fn op_order() -> Seq<CmpOp> {
    seq![CmpOp::Ge, CmpOp::Le, CmpOp::Eq, CmpOp::Ne, CmpOp::Gt, CmpOp::Lt]
}

/// Index of the first occurrence of `p` in `s` at or after `i`, or
/// `s.len()` where there is none.
pub open spec fn sub_pos_from(s: Seq<char>, p: Seq<char>, i: int) -> int
    decreases s.len() - i,
{
    if i < 0 || i >= s.len() {
        s.len() as int
    } else if i + p.len() <= s.len() && s.subrange(i, i + p.len()) == p {
        i
    } else {
        sub_pos_from(s, p, i + 1)
    }
}

/// The split of `cond` around the first occurrence of `op`, both sides
/// trimmed, if `op` occurs.
pub open spec fn split_at_op(cond: Seq<char>, op: CmpOp) -> Option<(CmpOp, Seq<char>, Seq<char>)> {
    let t = op_text(op);
    let k = sub_pos_from(cond, t, 0);
    if k < cond.len() {
        Some((op, crate::text::trim(cond.take(k)), crate::text::trim(cond.skip(k + t.len()))))
    } else {
        None
    }
}

/// The ways to read a condition, in the order they are tried: for every
/// operator that occurs, the operator with the trimmed text before and
/// after its first occurrence.
pub open spec fn candidates(cond: Seq<char>, ops: Seq<CmpOp>) -> Seq<(CmpOp, Seq<char>, Seq<char>)>
    decreases ops.len(),
{
    if ops.len() == 0 {
        seq![]
    } else {
        candidates(cond, ops.drop_last()) + match split_at_op(cond, ops.last()) {
            Some(c) => seq![c],
            None => seq![],
        }
    }
}

/// The plain-value model of a list of readings.
pub open spec fn readings_view(v: Seq<(CmpOp, String, String)>) -> Seq<(CmpOp, Seq<char>, Seq<char>)> {
    v.map_values(|c: (CmpOp, String, String)| (c.0, c.1@, c.2@))
}

fn op_chars(op: &CmpOp) -> (r: Vec<char>)
    ensures
        r@ == op_text(*op),
{
    let mut v: Vec<char> = Vec::new();
    match op {
        CmpOp::Ge => {
            v.push('>');
            v.push('=');
        },
        CmpOp::Le => {
            v.push('<');
            v.push('=');
        },
        CmpOp::Eq => {
            v.push('=');
            v.push('=');
        },
        CmpOp::Ne => {
            v.push('!');
            v.push('=');
        },
        CmpOp::Gt => {
            v.push('>');
        },
        CmpOp::Lt => {
            v.push('<');
        },
    }
    assert(v@ =~= op_text(*op));
    v
}

proof fn lemma_sub_pos(s: Seq<char>, p: Seq<char>, i: int)
    requires
        0 <= i,
    ensures
        sub_pos_from(s, p, i) < s.len() ==> sub_pos_from(s, p, i) + p.len() <= s.len()
            && s.subrange(sub_pos_from(s, p, i), sub_pos_from(s, p, i) + p.len()) == p,
    decreases s.len() - i,
{
    if i < s.len() && !(i + p.len() <= s.len() && s.subrange(i, i + p.len()) == p) {
        lemma_sub_pos(s, p, i + 1);
    }
}

fn find_sub(s: &[char], p: &[char]) -> (r: usize)
    ensures
        r == sub_pos_from(s@, p@, 0),
        r <= s@.len(),
        r < s@.len() ==> r + p@.len() <= s@.len(),
{
    proof {
        lemma_sub_pos(s@, p@, 0);
    }
    let n = s.len();
    let mut i: usize = 0;
    while i < n
        invariant
            i <= n == s@.len(),
            sub_pos_from(s@, p@, 0) == sub_pos_from(s@, p@, i as int),
        decreases n - i,
    {
        if crate::text::matches_at(s, i, p) {
            return i;
        }
        i = i + 1;
    }
    i
}

fn copy_op(op: &CmpOp) -> (r: CmpOp)
    ensures
        r == *op,
{
    match op {
        CmpOp::Ge => CmpOp::Ge,
        CmpOp::Le => CmpOp::Le,
        CmpOp::Eq => CmpOp::Eq,
        CmpOp::Ne => CmpOp::Ne,
        CmpOp::Gt => CmpOp::Gt,
        CmpOp::Lt => CmpOp::Lt,
    }
}

/// The readings of a condition, in the order they are to be tried.
pub fn condition_readings(cond: &str) -> (r: Vec<(CmpOp, String, String)>)
    ensures
        readings_view(r@) == candidates(cond@, op_order()),
{
    let c = chars_of(cond);
    let ops = vec![CmpOp::Ge, CmpOp::Le, CmpOp::Eq, CmpOp::Ne, CmpOp::Gt, CmpOp::Lt];
    assert(ops@ =~= op_order());
    let mut out: Vec<(CmpOp, String, String)> = Vec::new();
    let mut i: usize = 0;
    assert(op_order().take(0) =~= Seq::<CmpOp>::empty());
    assert(readings_view(out@) =~= Seq::<(CmpOp, Seq<char>, Seq<char>)>::empty());
    while i < ops.len()
        invariant
            i <= ops@.len(),
            ops@ == op_order(),
            c@ == cond@,
            readings_view(out@) == candidates(cond@, op_order().take(i as int)),
        decreases ops@.len() - i,
    {
        let op = copy_op(&ops[i]);
        assert(op_order().take(i + 1).drop_last() =~= op_order().take(i as int));
        assert(op_order().take(i + 1).last() == op);
        let t = op_chars(&op);
        let k = find_sub(c.as_slice(), t.as_slice());
        if k < c.len() {
            let a = slice_vec(c.as_slice(), 0, k);
            let b = slice_vec(c.as_slice(), k + t.len(), c.len());
            assert(a@ =~= c@.take(k as int));
            assert(b@ =~= c@.skip(k + t@.len()));
            let ta = crate::text::trim_chars(a.as_slice());
            let tb = crate::text::trim_chars(b.as_slice());
            let sa = string_of(ta.as_slice());
            let sb = string_of(tb.as_slice());
            let ghost old_out = out@;
            out.push((op, sa, sb));
            assert(readings_view(out@) =~= readings_view(old_out) + seq![(op, sa@, sb@)]);
        } else {
            assert(readings_view(out@) =~= readings_view(out@) + Seq::<(CmpOp, Seq<char>, Seq<char>)>::empty());
        }
        i = i + 1;
    }
    assert(op_order().take(6) =~= op_order());
    out
}

} // verus!
