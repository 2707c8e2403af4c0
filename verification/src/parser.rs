//! The script format: scenes headed by `[name]`, one command per line,
//! `#` starting a comment.
use vstd::prelude::*;

use crate::text::{
    alphanumeric, find_char, first_pos, has_prefix, is_alphanumeric, is_ws, lemma_first_pos,
    slice_vec, split_all, split_chars, string_of, trim, trim_chars, views,
};
use crate::script::{Command, DialogueCommand, ImageModel, ImageParams, SceneData, commands_view, pairs_view};
use crate::table::{Table, pairs_map};

verus! {

/// The characters that a backslash escapes in dialogue.
pub open spec fn escapable(c: char) -> bool {
    c == 'n' || c == 't' || c == ':' || c == '"' || c == '\''
}

/// What an escaped character stands for.
pub open spec fn unescaped(c: char) -> char {
    if c == 'n' {
        '\n'
    } else if c == 't' {
        '\t'
    } else {
        c
    }
}

/// Whether an escape sequence begins at index `i` of `s`.
pub open spec fn escape_at(s: Seq<char>, i: int) -> bool {
    0 <= i && i + 1 < s.len() && s[i] == '\\' && escapable(s[i + 1])
}

/// Index of the first colon of `s` that is not escaped, or `s.len()`.
pub open spec fn colon_pos(s: Seq<char>) -> int
    decreases s.len(),
{
    if s.len() == 0 {
        0
    } else if escape_at(s, 0) {
        2 + colon_pos(s.skip(2))
    } else if s[0] == ':' {
        0
    } else {
        1 + colon_pos(s.drop_first())
    }
}

/// `s` with its escape sequences replaced by what they stand for.
pub open spec fn unescape(s: Seq<char>) -> Seq<char>
    decreases s.len(),
{
    if s.len() == 0 {
        Seq::empty()
    } else if escape_at(s, 0) {
        seq![unescaped(s[1])] + unescape(s.skip(2))
    } else {
        seq![s[0]] + unescape(s.drop_first())
    }
}

pub proof fn lemma_colon_pos(s: Seq<char>)
    ensures
        0 <= colon_pos(s) <= s.len(),
        colon_pos(s) < s.len() ==> s[colon_pos(s)] == ':',
    decreases s.len(),
{
    if s.len() > 0 {
        if escape_at(s, 0) {
            lemma_colon_pos(s.skip(2));
        } else if s[0] != ':' {
            lemma_colon_pos(s.drop_first());
        }
    }
}

fn is_escapable(c: char) -> (r: bool)
    ensures
        r == escapable(c),
{
    c == 'n' || c == 't' || c == ':' || c == '"' || c == '\''
}

/// Index of the first unescaped colon of `v`, or `v.len()`.
pub fn colon_index(v: &[char]) -> (r: usize)
    ensures
        r == colon_pos(v@),
{
    let n = v.len();
    let mut i: usize = 0;
    assert(v@.skip(0) =~= v@);
    while i < n
        invariant
            i <= n == v@.len(),
            colon_pos(v@) == i + colon_pos(v@.skip(i as int)),
        decreases n - i,
    {
        let ghost rest = v@.skip(i as int);
        if v[i] == '\\' && i + 1 < n && is_escapable(v[i + 1]) {
            assert(escape_at(rest, 0));
            assert(rest.skip(2) =~= v@.skip(i + 2));
            i = i + 2;
        } else if v[i] == ':' {
            assert(!escape_at(rest, 0));
            return i;
        } else {
            assert(!escape_at(rest, 0));
            assert(rest.drop_first() =~= v@.skip(i + 1));
            i = i + 1;
        }
    }
    assert(v@.skip(i as int) =~= Seq::<char>::empty());
    i
}

/// `v` with its escape sequences replaced.
pub fn unescape_chars(v: &[char]) -> (r: Vec<char>)
    ensures
        r@ == unescape(v@),
{
    let n = v.len();
    let mut out: Vec<char> = Vec::new();
    let mut i: usize = 0;
    assert(v@.skip(0) =~= v@);
    while i < n
        invariant
            i <= n == v@.len(),
            unescape(v@) == out@ + unescape(v@.skip(i as int)),
        decreases n - i,
    {
        let ghost rest = v@.skip(i as int);
        if v[i] == '\\' && i + 1 < n && is_escapable(v[i + 1]) {
            assert(escape_at(rest, 0));
            assert(rest.skip(2) =~= v@.skip(i + 2));
            let c = v[i + 1];
            let u = if c == 'n' {
                '\n'
            } else if c == 't' {
                '\t'
            } else {
                c
            };
            let ghost old_out = out@;
            out.push(u);
            assert(out@ + unescape(v@.skip(i + 2)) =~= old_out + (seq![u] + unescape(rest.skip(2))));
            i = i + 2;
        } else {
            assert(!escape_at(rest, 0));
            assert(rest.drop_first() =~= v@.skip(i + 1));
            let ghost old_out = out@;
            out.push(v[i]);
            assert(out@ + unescape(v@.skip(i + 1)) =~= old_out + (seq![v@[i as int]] + unescape(
                rest.drop_first(),
            )));
            i = i + 1;
        }
    }
    assert(v@.skip(i as int) =~= Seq::<char>::empty());
    assert(out@ + Seq::<char>::empty() =~= out@);
    out
}

} // verus!

verus! {

/// Whether `s` begins with `p`.
pub open spec fn starts(s: Seq<char>, p: Seq<char>) -> bool {
    p.len() <= s.len() && s.take(p.len() as int) == p
}

pub open spec fn lit_img() -> Seq<char> {
    seq!['i', 'm', 'g', ':']
}

pub open spec fn lit_bg() -> Seq<char> {
    seq!['b', 'g', ':']
}

pub open spec fn lit_music() -> Seq<char> {
    seq!['m', 'u', 's', 'i', 'c', ':']
}

pub open spec fn lit_choose() -> Seq<char> {
    seq!['c', 'h', 'o', 'o', 's', 'e', ':']
}

pub open spec fn lit_load() -> Seq<char> {
    seq!['l', 'o', 'a', 'd', ':']
}

pub open spec fn lit_input() -> Seq<char> {
    seq!['i', 'n', 'p', 'u', 't', ':']
}

pub open spec fn lit_end() -> Seq<char> {
    seq!['e', 'n', 'd']
}

/// An ASCII decimal digit.
pub open spec fn is_digit(c: char) -> bool {
    '0' <= c && c <= '9'
}

/// The number that a string of decimal digits spells.
pub open spec fn digits_value(d: Seq<char>) -> nat
    decreases d.len(),
{
    if d.len() == 0 {
        0
    } else {
        digits_value(d.drop_last()) * 10 + (d.last() as nat - '0' as nat) as nat
    }
}

/// The portrait position a field names: `1` left, `3` right, anything else
/// the centre.
pub open spec fn position_of(s: Seq<char>) -> usize {
    if s == seq!['1'] {
        1
    } else if s == seq!['3'] {
        3
    } else {
        2
    }
}

/// A non-empty run of ASCII digits.
pub open spec fn all_digits(d: Seq<char>) -> bool {
    forall|i: int| 0 <= i < d.len() ==> is_digit(#[trigger] d[i])
}

/// A scale field without its optional trailing `%`.
pub open spec fn scale_digits(s: Seq<char>) -> Seq<char> {
    if s.len() > 0 && s.last() == '%' {
        s.drop_last()
    } else {
        s
    }
}

/// The scale a field names: one to three digits, optionally followed by
/// `%`; anything else means 100 percent.
pub open spec fn scale_of(s: Seq<char>) -> u32 {
    let d = scale_digits(s);
    if 1 <= d.len() <= 3 && all_digits(d) {
        digits_value(d) as u32
    } else {
        100
    }
}

/// The portrait parameters given after `img:` (already trimmed):
/// `file[:position[:scale]]`, nothing meaning "no portrait".
pub open spec fn image_model(rest: Seq<char>) -> ImageModel {
    if rest.len() == 0 {
        ImageModel { filename: None, position: 2, scale: 100 }
    } else {
        let parts = split_all(rest, ':');
        let name = trim(parts[0]);
        ImageModel {
            filename: if name.len() == 0 {
                None
            } else {
                Some(name)
            },
            position: if parts.len() > 1 {
                position_of(trim(parts[1]))
            } else {
                2
            },
            scale: if parts.len() > 2 {
                scale_of(trim(parts[2]))
            } else {
                100
            },
        }
    }
}

/// The choice that one `label:scene` piece gives, if it has a colon.
pub open spec fn option_of(p: Seq<char>) -> Seq<(Seq<char>, Seq<char>)> {
    let k = first_pos(p, ':');
    if k < p.len() {
        seq![(p.take(k), p.skip(k + 1))]
    } else {
        seq![]
    }
}

/// The choices that the pieces between `|` give, in order.
pub open spec fn options_of(parts: Seq<Seq<char>>) -> Seq<(Seq<char>, Seq<char>)>
    decreases parts.len(),
{
    if parts.len() == 0 {
        seq![]
    } else {
        options_of(parts.drop_last()) + option_of(parts.last())
    }
}

/// The jump that `load:` announces (its argument trimmed): `scene` or
/// `file:scene`.
pub open spec fn load_cmd(rest: Seq<char>) -> Command {
    let k = first_pos(rest, ':');
    if k < rest.len() {
        Command::Load { file: Some(trim(rest.take(k))), target: trim(rest.skip(k + 1)) }
    } else {
        Command::Load { file: None, target: rest }
    }
}

/// The request that `input:prompt:variable` makes.
pub open spec fn input_cmd(rest: Seq<char>) -> Command {
    let k = first_pos(rest, ':');
    if k < rest.len() {
        Command::Input { prompt: trim(rest.take(k)), var_name: trim(rest.skip(k + 1)) }
    } else {
        Command::Input { prompt: trim(rest), var_name: seq![] }
    }
}

/// A line `if condition: scene`.
pub open spec fn if_line(l: Seq<char>) -> bool {
    &&& l.len() >= 3
    &&& l[0] == 'i'
    &&& l[1] == 'f'
    &&& is_ws(l[2])
    &&& first_pos(l.skip(3), ':') < l.len() - 3
}

/// The conditional jump of an `if` line, given what follows `if `.
pub open spec fn if_cmd(rest: Seq<char>) -> Command {
    let k = first_pos(rest, ':');
    Command::If { condition: trim(rest.take(k)), target: trim(rest.skip(k + 1)) }
}

/// A character that may appear in a variable name.
pub open spec fn ident_char(c: char) -> bool {
    alphanumeric(c) || c == '_'
}

/// A string made of characters that may appear in a variable name.
pub open spec fn all_ident(s: Seq<char>) -> bool {
    forall|i: int| 0 <= i < s.len() ==> ident_char(#[trigger] s[i])
}

/// The name and value of an assignment `name = value`, where the name is
/// made of letters, digits and `_` and the value does not begin with `=`.
pub open spec fn assignment(l: Seq<char>) -> Option<(Seq<char>, Seq<char>)> {
    let k = first_pos(l, '=');
    if k < l.len() {
        let name = trim(l.take(k));
        let value = trim(l.skip(k + 1));
        if name.len() > 0 && all_ident(name) && !(value.len() > 0 && value[0] == '=') {
            Some((name, value))
        } else {
            None
        }
    } else {
        None
    }
}

/// A line of dialogue: `speaker:text:voice`, `speaker:text` or plain
/// narration, split at unescaped colons, escapes then replaced.
pub open spec fn dialogue_cmd(l: Seq<char>) -> Command {
    let p1 = colon_pos(l);
    if p1 >= l.len() {
        Command::Text { speaker: None, text: unescape(l), voice: None }
    } else {
        let a = l.take(p1);
        let r = l.skip(p1 + 1);
        let p2 = colon_pos(r);
        if p2 >= r.len() {
            Command::Text { speaker: Some(unescape(a)), text: unescape(r), voice: None }
        } else {
            Command::Text {
                speaker: Some(unescape(a)),
                text: unescape(r.take(p2)),
                voice: Some(unescape(r.skip(p2 + 1))),
            }
        }
    }
}

/// What one non-empty, trimmed line of a script is.
pub enum Line {
    Header(Seq<char>),
    Cmd(Command),
}

/// The meaning of one non-empty, trimmed line of a script.
pub open spec fn spec_line(l: Seq<char>) -> Line {
    if l.len() >= 2 && l[0] == '[' && l.last() == ']' {
        Line::Header(l.subrange(1, l.len() - 1))
    } else if starts(l, lit_img()) {
        Line::Cmd(Command::Image(image_model(trim(l.skip(4)))))
    } else if starts(l, lit_bg()) {
        let f = trim(l.skip(3));
        Line::Cmd(
            Command::Background {
                filename: if f.len() == 0 {
                    None
                } else {
                    Some(f)
                },
            },
        )
    } else if starts(l, lit_music()) {
        let f = trim(l.skip(6));
        Line::Cmd(
            if f.len() == 0 {
                Command::MusicStop
            } else {
                Command::Music { filename: f }
            },
        )
    } else if starts(l, lit_choose()) {
        Line::Cmd(Command::Choose { options: options_of(split_all(l.skip(7), '|')) })
    } else if starts(l, lit_load()) {
        Line::Cmd(load_cmd(trim(l.skip(5))))
    } else if starts(l, lit_input()) {
        Line::Cmd(input_cmd(l.skip(6)))
    } else if if_line(l) {
        Line::Cmd(if_cmd(l.skip(3)))
    } else if l == lit_end() {
        Line::Cmd(Command::End)
    } else if assignment(l) is Some {
        let a = assignment(l).unwrap();
        Line::Cmd(Command::SetVar { name: a.0, value: a.1 })
    } else {
        Line::Cmd(dialogue_cmd(l))
    }
}

} // verus!

verus! {

fn opt_string(v: &Vec<char>) -> (r: Option<String>)
    ensures
        crate::script::opt_view(r) == (if v@.len() == 0 {
            None::<Seq<char>>
        } else {
            Some(v@)
        }),
{
    if v.len() == 0 {
        None
    } else {
        Some(string_of(v.as_slice()))
    }
}

fn parse_position(t: &[char]) -> (r: usize)
    ensures
        r == position_of(t@),
{
    if t.len() == 1 && t[0] == '1' {
        assert(t@ =~= seq!['1']);
        1
    } else if t.len() == 1 && t[0] == '3' {
        assert(t@ =~= seq!['3']);
        3
    } else {
        assert(t@ != seq!['1'] && t@ != seq!['3']) by {
            if t@ == seq!['1'] || t@ == seq!['3'] {
                assert(t@.len() == 1);
            }
        }
        2
    }
}

proof fn lemma_digits_bound(d: Seq<char>)
    requires
        forall|i: int| 0 <= i < d.len() ==> is_digit(#[trigger] d[i]),
        d.len() <= 3,
    ensures
        digits_value(d) < 1000,
        d.len() <= 2 ==> digits_value(d) < 100,
        d.len() <= 1 ==> digits_value(d) < 10,
    decreases d.len(),
{
    if d.len() > 0 {
        assert forall|i: int| 0 <= i < d.drop_last().len() implies is_digit(#[trigger] d.drop_last()[i]) by {
            assert(d.drop_last()[i] == d[i]);
        }
        lemma_digits_bound(d.drop_last());
        assert(is_digit(d[d.len() - 1]));
    }
}

fn parse_scale(t: &[char]) -> (r: u32)
    ensures
        r == scale_of(t@),
{
    let n = t.len();
    let m = if n > 0 && t[n - 1] == '%' {
        n - 1
    } else {
        n
    };
    let ghost d = scale_digits(t@);
    assert(d =~= t@.take(m as int));
    if m < 1 || m > 3 {
        return 100;
    }
    let mut value: u32 = 0;
    let mut i: usize = 0;
    while i < m
        invariant
            m <= n == t@.len(),
            1 <= m <= 3,
            d =~= t@.take(m as int),
            d == scale_digits(t@),
            i <= m,
            forall|j: int| 0 <= j < i ==> is_digit(#[trigger] d[j]),
            value == digits_value(d.take(i as int)),
            value < 1000,
        decreases m - i,
    {
        let c = t[i];
        assert(d[i as int] == t@[i as int]);
        if c < '0' || c > '9' {
            assert(!is_digit(d[i as int]));
            assert(!all_digits(d));
            return 100;
        }
        proof {
            assert(d.take(i + 1).drop_last() =~= d.take(i as int));
            assert(forall|j: int| 0 <= j < d.take(i + 1).len() ==> is_digit(#[trigger] d.take(i + 1)[j]));
            lemma_digits_bound(d.take(i + 1));
        }
        value = value * 10 + ((c as u32) - ('0' as u32));
        i = i + 1;
    }
    assert(d.take(m as int) =~= d);
    assert(all_digits(d));
    value
}

} // verus!

verus! {

fn parse_image(rest: &[char]) -> (r: ImageParams)
    ensures
        r@ == image_model(rest@),
{
    if rest.len() == 0 {
        return ImageParams { filename: None, position: 2, scale: 100 };
    }
    let parts = split_chars(rest, ':');
    assert(views(parts@).len() == parts@.len());
    proof {
        reveal_with_fuel(split_all, 1);
        lemma_first_pos(rest@, ':');
    }
    assert(parts@.len() >= 1);
    assert(views(parts@)[0] == parts@[0]@);
    let name = trim_chars(parts[0].as_slice());
    let filename = opt_string(&name);
    let position = if parts.len() > 1 {
        assert(views(parts@)[1] == parts@[1]@);
        let t = trim_chars(parts[1].as_slice());
        parse_position(t.as_slice())
    } else {
        2
    };
    let scale = if parts.len() > 2 {
        assert(views(parts@)[2] == parts@[2]@);
        let t = trim_chars(parts[2].as_slice());
        parse_scale(t.as_slice())
    } else {
        100
    };
    ImageParams { filename, position, scale }
}

fn parse_options(rest: &[char]) -> (r: Vec<(String, String)>)
    ensures
        pairs_view(r@) == options_of(split_all(rest@, '|')),
{
    let parts = split_chars(rest, '|');
    let ghost ps = split_all(rest@, '|');
    let mut out: Vec<(String, String)> = Vec::new();
    let mut i: usize = 0;
    assert(ps.take(0) =~= Seq::<Seq<char>>::empty());
    while i < parts.len()
        invariant
            i <= parts@.len(),
            views(parts@) == ps,
            pairs_view(out@) == options_of(ps.take(i as int)),
        decreases parts@.len() - i,
    {
        let part = &parts[i];
        assert(ps[i as int] == part@);
        assert(ps.take(i + 1).drop_last() =~= ps.take(i as int));
        assert(ps.take(i + 1).last() == part@);
        let k = find_char(part.as_slice(), ':');
        proof {
            lemma_first_pos(part@, ':');
        }
        if k < part.len() {
            let a = slice_vec(part.as_slice(), 0, k);
            let b = slice_vec(part.as_slice(), k + 1, part.len());
            let sa = string_of(a.as_slice());
            let sb = string_of(b.as_slice());
            let ghost old_out = out@;
            out.push((sa, sb));
            assert(a@ =~= part@.take(k as int));
            assert(b@ =~= part@.skip(k + 1));
            assert(pairs_view(out@) =~= pairs_view(old_out) + seq![(sa@, sb@)]);
        } else {
            assert(option_of(part@) =~= Seq::<(Seq<char>, Seq<char>)>::empty());
            assert(pairs_view(out@) =~= pairs_view(out@) + Seq::<(Seq<char>, Seq<char>)>::empty());
        }
        i = i + 1;
    }
    assert(ps.take(parts@.len() as int) =~= ps);
    out
}

fn parse_load(rest: &[char]) -> (r: DialogueCommand)
    ensures
        r@ == load_cmd(rest@),
{
    let k = find_char(rest, ':');
    proof {
        lemma_first_pos(rest@, ':');
    }
    if k < rest.len() {
        let a = slice_vec(rest, 0, k);
        let b = slice_vec(rest, k + 1, rest.len());
        assert(a@ =~= rest@.take(k as int));
        assert(b@ =~= rest@.skip(k + 1));
        let ta = trim_chars(a.as_slice());
        let tb = trim_chars(b.as_slice());
        DialogueCommand::Load { file: Some(string_of(ta.as_slice())), target: string_of(tb.as_slice()) }
    } else {
        DialogueCommand::Load { file: None, target: string_of(rest) }
    }
}

fn parse_input(rest: &[char]) -> (r: DialogueCommand)
    ensures
        r@ == input_cmd(rest@),
{
    let k = find_char(rest, ':');
    proof {
        lemma_first_pos(rest@, ':');
    }
    if k < rest.len() {
        let a = slice_vec(rest, 0, k);
        let b = slice_vec(rest, k + 1, rest.len());
        assert(a@ =~= rest@.take(k as int));
        assert(b@ =~= rest@.skip(k + 1));
        let ta = trim_chars(a.as_slice());
        let tb = trim_chars(b.as_slice());
        DialogueCommand::Input { prompt: string_of(ta.as_slice()), var_name: string_of(tb.as_slice()) }
    } else {
        let t = trim_chars(rest);
        let e: Vec<char> = Vec::new();
        assert(e@ =~= Seq::<char>::empty());
        DialogueCommand::Input { prompt: string_of(t.as_slice()), var_name: string_of(e.as_slice()) }
    }
}

fn parse_if(rest: &[char]) -> (r: DialogueCommand)
    requires
        first_pos(rest@, ':') < rest@.len(),
    ensures
        r@ == if_cmd(rest@),
{
    let k = find_char(rest, ':');
    assert(k < rest.len());
    let a = slice_vec(rest, 0, k);
    let b = slice_vec(rest, k + 1, rest.len());
    assert(a@ =~= rest@.take(k as int));
    assert(b@ =~= rest@.skip(k + 1));
    let ta = trim_chars(a.as_slice());
    let tb = trim_chars(b.as_slice());
    DialogueCommand::If { condition: string_of(ta.as_slice()), target: string_of(tb.as_slice()) }
}

fn ident_chars(name: &[char]) -> (r: bool)
    ensures
        r == all_ident(name@),
{
    let mut i: usize = 0;
    while i < name.len()
        invariant
            i <= name@.len(),
            forall|j: int| 0 <= j < i ==> ident_char(#[trigger] name@[j]),
        decreases name@.len() - i,
    {
        let c = name[i];
        if !(is_alphanumeric(c) || c == '_') {
            assert(!ident_char(name@[i as int]));
            return false;
        }
        i = i + 1;
    }
    true
}

fn parse_assignment(l: &[char]) -> (r: Option<(String, String)>)
    ensures
        r matches Some(p) ==> assignment(l@) == Some((p.0@, p.1@)),
        r is None ==> assignment(l@) is None,
{
    let k = find_char(l, '=');
    if k >= l.len() {
        return None;
    }
    let a = slice_vec(l, 0, k);
    let b = slice_vec(l, k + 1, l.len());
    assert(a@ =~= l@.take(k as int));
    assert(b@ =~= l@.skip(k + 1));
    let name = trim_chars(a.as_slice());
    let value = trim_chars(b.as_slice());
    if name.len() == 0 {
        return None;
    }
    if value.len() > 0 && value[0] == '=' {
        return None;
    }
    if !ident_chars(name.as_slice()) {
        return None;
    }
    Some((string_of(name.as_slice()), string_of(value.as_slice())))
}

fn parse_dialogue(l: &[char]) -> (r: DialogueCommand)
    ensures
        r@ == dialogue_cmd(l@),
{
    let p1 = colon_index(l);
    proof {
        lemma_colon_pos(l@);
    }
    if p1 >= l.len() {
        let t = unescape_chars(l);
        return DialogueCommand::Text { speaker: None, text: string_of(t.as_slice()), voice: None };
    }
    let a = slice_vec(l, 0, p1);
    let r = slice_vec(l, p1 + 1, l.len());
    assert(a@ =~= l@.take(p1 as int));
    assert(r@ =~= l@.skip(p1 + 1));
    let speaker = unescape_chars(a.as_slice());
    let p2 = colon_index(r.as_slice());
    proof {
        lemma_colon_pos(r@);
    }
    if p2 >= r.len() {
        let t = unescape_chars(r.as_slice());
        DialogueCommand::Text {
            speaker: Some(string_of(speaker.as_slice())),
            text: string_of(t.as_slice()),
            voice: None,
        }
    } else {
        let ta = slice_vec(r.as_slice(), 0, p2);
        let tb = slice_vec(r.as_slice(), p2 + 1, r.len());
        assert(ta@ =~= r@.take(p2 as int));
        assert(tb@ =~= r@.skip(p2 + 1));
        let t = unescape_chars(ta.as_slice());
        let v = unescape_chars(tb.as_slice());
        DialogueCommand::Text {
            speaker: Some(string_of(speaker.as_slice())),
            text: string_of(t.as_slice()),
            voice: Some(string_of(v.as_slice())),
        }
    }
}

} // verus!

verus! {

/// One parsed line: a scene header or a command.
pub enum ParsedLine {
    Header(String),
    Cmd(DialogueCommand),
}

/// The plain-value model of a parsed line.
pub open spec fn line_view(p: ParsedLine) -> Line {
    match p {
        ParsedLine::Header(n) => Line::Header(n@),
        ParsedLine::Cmd(c) => Line::Cmd(c@),
    }
}

fn prefixed(l: &[char], p: &[char]) -> (r: bool)
    ensures
        r == starts(l@, p@),
{
    has_prefix(l, p)
}

/// What one non-empty, trimmed line of a script says.
pub fn parse_line(l: &[char]) -> (r: ParsedLine)
    ensures
        line_view(r) == spec_line(l@),
{
    let n = l.len();
    if n >= 2 && l[0] == '[' && l[n - 1] == ']' {
        let name = slice_vec(l, 1, n - 1);
        return ParsedLine::Header(string_of(name.as_slice()));
    }
    let p_img = ['i', 'm', 'g', ':'];
    assert(p_img@ =~= lit_img());
    if prefixed(l, &p_img) {
        let rest = slice_vec(l, 4, n);
        assert(rest@ =~= l@.skip(4));
        let t = trim_chars(rest.as_slice());
        return ParsedLine::Cmd(DialogueCommand::Image(parse_image(t.as_slice())));
    }
    let p_bg = ['b', 'g', ':'];
    assert(p_bg@ =~= lit_bg());
    if prefixed(l, &p_bg) {
        let rest = slice_vec(l, 3, n);
        assert(rest@ =~= l@.skip(3));
        let t = trim_chars(rest.as_slice());
        return ParsedLine::Cmd(DialogueCommand::Background { filename: opt_string(&t) });
    }
    let p_music = ['m', 'u', 's', 'i', 'c', ':'];
    assert(p_music@ =~= lit_music());
    if prefixed(l, &p_music) {
        let rest = slice_vec(l, 6, n);
        assert(rest@ =~= l@.skip(6));
        let t = trim_chars(rest.as_slice());
        if t.len() == 0 {
            return ParsedLine::Cmd(DialogueCommand::MusicStop);
        } else {
            return ParsedLine::Cmd(DialogueCommand::Music { filename: string_of(t.as_slice()) });
        }
    }
    let p_choose = ['c', 'h', 'o', 'o', 's', 'e', ':'];
    assert(p_choose@ =~= lit_choose());
    if prefixed(l, &p_choose) {
        let rest = slice_vec(l, 7, n);
        assert(rest@ =~= l@.skip(7));
        return ParsedLine::Cmd(DialogueCommand::Choose { options: parse_options(rest.as_slice()) });
    }
    let p_load = ['l', 'o', 'a', 'd', ':'];
    assert(p_load@ =~= lit_load());
    if prefixed(l, &p_load) {
        let rest = slice_vec(l, 5, n);
        assert(rest@ =~= l@.skip(5));
        let t = trim_chars(rest.as_slice());
        return ParsedLine::Cmd(parse_load(t.as_slice()));
    }
    let p_input = ['i', 'n', 'p', 'u', 't', ':'];
    assert(p_input@ =~= lit_input());
    if prefixed(l, &p_input) {
        let rest = slice_vec(l, 6, n);
        assert(rest@ =~= l@.skip(6));
        return ParsedLine::Cmd(parse_input(rest.as_slice()));
    }
    if n >= 3 && l[0] == 'i' && l[1] == 'f' && crate::text::is_whitespace(l[2]) {
        let rest = slice_vec(l, 3, n);
        assert(rest@ =~= l@.skip(3));
        let k = find_char(rest.as_slice(), ':');
        if k < rest.len() {
            return ParsedLine::Cmd(parse_if(rest.as_slice()));
        }
    }
    assert(!if_line(l@));
    if n == 3 && l[0] == 'e' && l[1] == 'n' && l[2] == 'd' {
        assert(l@ =~= lit_end());
        return ParsedLine::Cmd(DialogueCommand::End);
    }
    assert(l@ != lit_end()) by {
        if l@ == lit_end() {
            assert(l@.len() == 3);
            assert(l@[0] == 'e' && l@[1] == 'n' && l@[2] == 'd');
        }
    }
    match parse_assignment(l) {
        Some(p) => {
            return ParsedLine::Cmd(DialogueCommand::SetVar { name: p.0, value: p.1 });
        },
        None => {},
    }
    ParsedLine::Cmd(parse_dialogue(l))
}

} // verus!

verus! {

/// The strings of a list taken by their characters.
pub open spec fn strings_view(v: Seq<String>) -> Seq<Seq<char>> {
    v.map_values(|s: String| s@)
}

/// A line with its comment (from the first `#`) cut off, then trimmed.
pub open spec fn clean_line(raw: Seq<char>) -> Seq<char> {
    trim(raw.take(first_pos(raw, '#')))
}

/// What has been read of a script so far: the finished scenes, their
/// names in the order they were finished, and the scene being read.
pub struct Acc {
    pub scenes: Map<Seq<char>, Seq<Command>>,
    pub order: Seq<Seq<char>>,
    pub cur: Seq<char>,
    pub cmds: Seq<Command>,
}

/// Reading one more raw line. A header closes the scene being read, unless
/// that scene has no name, in which case its commands carry over to the
/// new scene.
pub open spec fn step(a: Acc, raw: Seq<char>) -> Acc {
    let l = clean_line(raw);
    if l.len() == 0 {
        a
    } else {
        match spec_line(l) {
            Line::Header(name) => if a.cur.len() > 0 {
                Acc {
                    scenes: a.scenes.insert(a.cur, a.cmds),
                    order: a.order.push(a.cur),
                    cur: name,
                    cmds: seq![],
                }
            } else {
                Acc { cur: name, ..a }
            },
            Line::Cmd(c) => Acc { cmds: a.cmds.push(c), ..a },
        }
    }
}

/// Reading a list of raw lines from the start.
pub open spec fn run(lines: Seq<Seq<char>>) -> Acc
    decreases lines.len(),
{
    if lines.len() == 0 {
        Acc { scenes: Map::empty(), order: seq![], cur: seq![], cmds: seq![] }
    } else {
        step(run(lines.drop_last()), lines.last())
    }
}

/// The scenes of a script and their names in file order.
pub open spec fn script_model(content: Seq<char>) -> (Map<Seq<char>, Seq<Command>>, Seq<Seq<char>>) {
    let a = run(split_all(content, '\n'));
    if a.cur.len() > 0 {
        (a.scenes.insert(a.cur, a.cmds), a.order.push(a.cur))
    } else {
        (a.scenes, a.order)
    }
}

fn clean(raw: &[char]) -> (r: Vec<char>)
    ensures
        r@ == clean_line(raw@),
{
    let k = find_char(raw, '#');
    let cut = slice_vec(raw, 0, k);
    assert(cut@ =~= raw@.take(k as int));
    trim_chars(cut.as_slice())
}

/// Reads a script, giving the scenes by name and the scene names in the
/// order they appear in the file.
pub fn parse_dialogue_file_with_order(content: &str) -> (r: (Table<SceneData>, Vec<String>))
    ensures
        pairs_map(r.0.pairs()) == script_model(content@).0,
        strings_view(r.1@) == script_model(content@).1,
{
    let chars = crate::text::chars_of(content);
    let lines = split_chars(chars.as_slice(), '\n');
    let ghost ls = split_all(content@, '\n');
    let mut table: Table<SceneData> = Table::new();
    let mut order: Vec<String> = Vec::new();
    let mut cur: Vec<char> = Vec::new();
    let mut cmds: Vec<DialogueCommand> = Vec::new();
    let mut i: usize = 0;
    assert(ls.take(0) =~= Seq::<Seq<char>>::empty());
    assert(pairs_map(table.pairs()) =~= Map::<Seq<char>, Seq<Command>>::empty());
    assert(strings_view(order@) =~= Seq::<Seq<char>>::empty());
    assert(commands_view(cmds@) =~= Seq::<Command>::empty());
    while i < lines.len()
        invariant
            i <= lines@.len(),
            views(lines@) == ls,
            run(ls.take(i as int)) == (Acc {
                scenes: pairs_map(table.pairs()),
                order: strings_view(order@),
                cur: cur@,
                cmds: commands_view(cmds@),
            }),
        decreases lines@.len() - i,
    {
        assert(ls.take(i + 1).drop_last() =~= ls.take(i as int));
        assert(ls[i as int] == lines@[i as int]@);
        let l = clean(lines[i].as_slice());
        if l.len() > 0 {
            match parse_line(l.as_slice()) {
                ParsedLine::Header(name) => {
                    if cur.len() > 0 {
                        let key = string_of(cur.as_slice());
                        let key2 = string_of(cur.as_slice());
                        let mut done: Vec<DialogueCommand> = Vec::new();
                        std::mem::swap(&mut done, &mut cmds);
                        table.insert(key, SceneData { commands: done });
                        let ghost old_order = order@;
                        order.push(key2);
                        assert(strings_view(order@) =~= strings_view(old_order).push(cur@));
                        assert(commands_view(cmds@) =~= Seq::<Command>::empty());
                    }
                    cur = crate::text::chars_of(name.as_str());
                },
                ParsedLine::Cmd(c) => {
                    let ghost old_cmds = cmds@;
                    let ghost cv = c@;
                    cmds.push(c);
                    assert(commands_view(cmds@) =~= commands_view(old_cmds).push(cv));
                },
            }
        }
        i = i + 1;
    }
    assert(ls.take(lines@.len() as int) =~= ls);
    if cur.len() > 0 {
        let key = string_of(cur.as_slice());
        let key2 = string_of(cur.as_slice());
        table.insert(key, SceneData { commands: cmds });
        let ghost old_order = order@;
        order.push(key2);
        assert(strings_view(order@) =~= strings_view(old_order).push(cur@));
    }
    (table, order)
}

/// Reads a script, giving its scenes by name.
pub fn parse_dialogue_file(content: &str) -> (r: Table<SceneData>)
    ensures
        pairs_map(r.pairs()) == script_model(content@).0,
{
    parse_dialogue_file_with_order(content).0
}

} // verus!

verus! {

/// The game's settings file: its title, footer, main script and the
/// optional logo, menu picture and title music.
pub struct GameConfig {
    pub title: String,
    pub footer: String,
    pub index: String,
    pub logo: Option<String>,
    pub menu_image: Option<String>,
    pub bgm: Option<String>,
}

} // verus!
