//! Properties that hold across the operations of the library: what a
//! read gives back of a write, what one step undoes of another, and what
//! every step keeps.
use vstd::prelude::*;
use crate::engine::{
    AppModel, HISTORY_MAX, SettingsAction, added_history, animate, colors,
    color_index, load_ok, revealed, settings_step,
};
use crate::save::SaveModel;
use crate::table::pairs_map;
use crate::variables::{braced, brace_names, fill, interpolation, lemma_nonbrace_run, nonbrace_run};
use crate::parser::{Acc, clean_line};
use crate::text::{first_pos, lemma_first_pos};

verus! {

/// Setting a variable makes reading it give the value set, and leaves
/// every other variable as it was.
pub proof fn law_set_then_get(vars: Map<Seq<char>, Seq<char>>, name: Seq<char>, value: Seq<char>, other: Seq<char>)
    ensures
        vars.insert(name, value).contains_key(name),
        vars.insert(name, value)[name] == value,
        other != name ==> (vars.insert(name, value).contains_key(other) == vars.contains_key(other)),
        other != name && vars.contains_key(other) ==> vars.insert(name, value)[other] == vars[other],
{
}

/// The pairs that the variables serialise to give back the same variables
/// when they are deserialised.
pub proof fn law_serialize_round_trip(vars: &crate::variables::Variables, pairs: Seq<(Seq<char>, Seq<char>)>)
    requires
        pairs == vars.pairs(),
    ensures
        pairs_map(pairs) == vars@,
{
}

/// Loading a save brings back what the save holds: the state, the
/// selection, the variables, the background, the portrait and the music.
pub proof fn law_load_restores_save(m: AppModel, slot: usize, d: SaveModel)
    ensures
        load_ok(m, slot, d).vars == pairs_map(d.variables),
        load_ok(m, slot, d).selected == d.menu_selected,
        load_ok(m, slot, d).background == d.background,
        load_ok(m, slot, d).image == d.image_params,
        load_ok(m, slot, d).current_bgm == d.bgm,
        load_ok(m, slot, d).state == d.state,
        load_ok(m, slot, d).prev_state is None,
{
}

/// A save taken of the engine, then loaded into any engine, gives back the
/// variables, selection, background, portrait and music of the engine
/// that was saved, and the state it was in before the save screen opened.
pub proof fn law_save_then_load(saved: &crate::engine::App, d: SaveModel, m: AppModel, slot: usize)
    requires
        d.state == match saved.model().prev_state {
            Some(p) => p,
            None => saved.model().state,
        },
        d.menu_selected == saved.selected,
        d.variables == saved.variables.pairs(),
        d.background == saved.model().background,
        d.bgm == saved.model().current_bgm,
        d.image_params == saved.model().image,
    ensures
        load_ok(m, slot, d).vars == saved.model().vars,
        load_ok(m, slot, d).selected == saved.model().selected,
        load_ok(m, slot, d).background == saved.model().background,
        load_ok(m, slot, d).image == saved.model().image,
        load_ok(m, slot, d).current_bgm == saved.model().current_bgm,
        load_ok(m, slot, d).state == match saved.model().prev_state {
            Some(p) => p,
            None => saved.model().state,
        },
{
    law_load_restores_save(m, slot, d);
}

/// The history never holds more than [`HISTORY_MAX`] lines, its newest
/// line is the one just added, and below the limit nothing is dropped.
pub proof fn law_history_bounded(
    h: Seq<(Option<Seq<char>>, Seq<char>)>,
    speaker: Option<Seq<char>>,
    text: Seq<char>,
)
    requires
        h.len() <= HISTORY_MAX,
    ensures
        added_history(h, speaker, text).len() <= HISTORY_MAX,
        added_history(h, speaker, text).last() == (speaker, text),
        h.len() < HISTORY_MAX ==> added_history(h, speaker, text) == h.push((speaker, text)),
        h.len() == HISTORY_MAX ==> added_history(h, speaker, text) == h.drop_first().push((speaker, text)),
{
    let h2 = h.push((speaker, text));
    if h2.len() > HISTORY_MAX {
        assert(h2.skip(1) =~= h.drop_first().push((speaker, text)));
    }
}

/// Raising a volume by a step and lowering it again gives back the volume,
/// for the music and for the voices; likewise for the text speed.
pub proof fn law_volume_up_down(m: AppModel)
    ensures
        m.settings.bgm_volume <= 90 ==> settings_step(settings_step(m, SettingsAction::BgmUp), SettingsAction::BgmDown).settings
            == m.settings,
        m.settings.voice_volume <= 90 ==> settings_step(settings_step(m, SettingsAction::VoiceUp), SettingsAction::VoiceDown).settings
            == m.settings,
        10 <= m.settings.text_speed <= 90 ==> settings_step(settings_step(m, SettingsAction::TextSpeedUp), SettingsAction::TextSpeedDown).settings
            == m.settings,
{
}

/// No settings action takes a volume above 100 or the text speed out of
/// 10 to 100 ms.
pub proof fn law_settings_in_range(m: AppModel, a: SettingsAction)
    requires
        m.settings.bgm_volume <= 100,
        m.settings.voice_volume <= 100,
        10 <= m.settings.text_speed <= 100,
    ensures
        settings_step(m, a).settings.bgm_volume <= 100,
        settings_step(m, a).settings.voice_volume <= 100,
        10 <= settings_step(m, a).settings.text_speed <= 100,
{
}

proof fn lemma_color_index(i: int)
    requires
        0 <= i < 6,
    ensures
        color_index(colors()[i]) == i,
{
    reveal_strlit("default");
    reveal_strlit("#2A2A3E");
    reveal_strlit("#1E1E2E");
    reveal_strlit("#222436");
    reveal_strlit("#2C2C3C");
    reveal_strlit("#3A2C3C");
    let c = colors()[i];
    assert(forall|a: int, b: int| 0 <= a < 6 && 0 <= b < 6 && a != b ==> colors()[a] != colors()[b]) by {
        assert forall|a: int, b: int| 0 <= a < 6 && 0 <= b < 6 && a != b implies colors()[a] != colors()[b] by {
            if colors()[a] == colors()[b] {
                assert(colors()[a][1] == colors()[b][1]);
                assert(colors()[a].len() == colors()[b].len());
                assert(colors()[a][2] == colors()[b][2]);
                assert(colors()[a][4] == colors()[b][4]);
            }
        }
    }
    assert(0 <= i < 6 && colors()[i] == c);
    let j = color_index(c);
    assert(0 <= j < 6 && colors()[j] == c);
}

proof fn lemma_background_next(m: AppModel, i: int)
    requires
        0 <= i < 6,
        m.settings.background_color == colors()[i],
    ensures
        settings_step(m, SettingsAction::BgColorNext).settings.background_color == colors()[(i + 1) % 6],
{
    lemma_color_index(i);
}

/// The engine after `k` steps of the background colour.
pub open spec fn background_steps(m: AppModel, k: nat) -> AppModel
    decreases k,
{
    if k == 0 {
        m
    } else {
        settings_step(background_steps(m, (k - 1) as nat), SettingsAction::BgColorNext)
    }
}

#[verifier::spinoff_prover]
#[verifier::rlimit(40)]
proof fn lemma_background_steps(m: AppModel, i: int, k: nat)
    requires
        0 <= i < 6,
        m.settings.background_color == colors()[i],
    ensures
        background_steps(m, k).settings.background_color == colors()[(i + k) % 6],
    decreases k,
{
    if k > 0 {
        lemma_background_steps(m, i, (k - 1) as nat);
        lemma_background_next(background_steps(m, (k - 1) as nat), (i + k - 1) % 6);
        assert(((i + k - 1) % 6 + 1) % 6 == (i + k) % 6);
    }
}

/// Six steps of the background colour come back to the colour one started
/// from, when it is one of the colours of the cycle.
pub proof fn law_background_cycle(m: AppModel, i: int)
    requires
        0 <= i < 6,
        m.settings.background_color == colors()[i],
    ensures
        background_steps(m, 6).settings.background_color == m.settings.background_color,
{
    lemma_background_steps(m, i, 6);
    assert((i + 6) % 6 == i);
}

/// Revealing characters of a text keeps what is shown a beginning of the
/// text, shows `n` more characters or all of it, and never more.
pub proof fn law_reveal(d: Seq<char>, t: Seq<char>, n: nat)
    requires
        d.len() <= t.len(),
        d == t.take(d.len() as int),
    ensures
        revealed(d, t, n) == t.take(revealed(d, t, n).len() as int),
        revealed(d, t, n).len() == if d.len() + n <= t.len() {
            (d.len() + n) as int
        } else {
            t.len() as int
        },
    decreases n,
{
    if n == 0 || d.len() >= t.len() {
    } else {
        let d2 = d.push(t[d.len() as int]);
        assert(d2 =~= t.take(d2.len() as int));
        law_reveal(d2, t, (n - 1) as nat);
    }
}

/// With the animation on, enough ticks show the whole text; with it off,
/// one tick does.
pub proof fn law_animation_completes(m: AppModel, n: nat)
    requires
        m.display.len() <= m.target.len(),
        m.display == m.target.take(m.display.len() as int),
        m.display.len() + n >= m.target.len(),
    ensures
        animate(m, n).display == m.target,
{
    if m.settings.text_animation && m.target.len() > 0 {
        law_reveal(m.display, m.target, n);
        assert(m.target.take(m.target.len() as int) =~= m.target);
    }
}

proof fn lemma_no_brace_names(s: Seq<char>)
    requires
        forall|i: int| 0 <= i < s.len() ==> s[i] != '{',
    ensures
        brace_names(s) == Seq::<Seq<char>>::empty(),
    decreases s.len(),
{
    if s.len() > 0 {
        let r = s.drop_first();
        lemma_nonbrace_run(r);
        assert forall|i: int| 0 <= i < r.len() implies r[i] != '{' by {
            assert(r[i] == s[i + 1]);
        }
        lemma_no_brace_names(r);
    }
}

/// A text without `{` is shown as it is, whatever the variables.
pub proof fn law_plain_text_unchanged(vars: Map<Seq<char>, Seq<char>>, text: Seq<char>)
    requires
        forall|i: int| 0 <= i < text.len() ==> text[i] != '{',
    ensures
        interpolation(vars, text) == text,
{
    lemma_no_brace_names(text);
}

/// Everything from `#` on is a comment: a script line with a comment is
/// read as the same line without it.
pub proof fn law_comment_ignored(a: Acc, line: Seq<char>, comment: Seq<char>)
    requires
        forall|i: int| 0 <= i < line.len() ==> line[i] != '#',
    ensures
        clean_line(line + seq!['#'] + comment) == clean_line(line),
        crate::parser::step(a, line + seq!['#'] + comment) == crate::parser::step(a, line),
{
    let full = line + seq!['#'] + comment;
    lemma_first_pos(line, '#');
    lemma_first_pos(full, '#');
    assert(full[line.len() as int] == '#');
    if first_pos(full, '#') < line.len() {
        assert(full[first_pos(full, '#')] == line[first_pos(full, '#')]);
    }
    assert(first_pos(full, '#') == line.len());
    assert(first_pos(line, '#') == line.len());
    assert(full.take(line.len() as int) =~= line);
    assert(line.take(line.len() as int) =~= line);
}

proof fn lemma_unescape_plain(s: Seq<char>)
    requires
        forall|i: int| 0 <= i < s.len() ==> s[i] != '\\',
    ensures
        crate::parser::unescape(s) == s,
    decreases s.len(),
{
    if s.len() > 0 {
        let r = s.drop_first();
        assert forall|i: int| 0 <= i < r.len() implies r[i] != '\\' by {
            assert(r[i] == s[i + 1]);
        }
        lemma_unescape_plain(r);
        assert(s =~= seq![s[0]] + r);
    }
}

/// A line without a backslash or colon is narration shown as it is
/// written, and an escaped colon (`\:`) is no separator: it stands for a
/// colon in the text.
pub proof fn law_escapes(plain: Seq<char>, word: Seq<char>)
    requires
        forall|i: int| 0 <= i < plain.len() ==> plain[i] != '\\' && plain[i] != ':',
        forall|i: int| 0 <= i < word.len() ==> word[i] != '\\' && word[i] != ':',
    ensures
        crate::parser::dialogue_cmd(plain) == (crate::script::Command::Text { speaker: None, text: plain, voice: None }),
        crate::parser::unescape(word + seq!['\\', ':'] + plain) == word + seq![':'] + plain,
        crate::parser::colon_pos(word + seq!['\\', ':'] + plain) == (word + seq!['\\', ':'] + plain).len(),
    decreases word.len(),
{
    lemma_unescape_plain(plain);
    lemma_no_colon(plain);
    let t = seq!['\\', ':'] + plain;
    assert(t.skip(2) =~= plain);
    assert(crate::parser::escape_at(t, 0));
    if word.len() == 0 {
        assert(word + seq!['\\', ':'] + plain =~= t);
        assert(crate::parser::unescape(t) =~= seq![':'] + plain);
        assert(word + seq![':'] + plain =~= seq![':'] + plain);
    } else {
        let w2 = word.drop_first();
        assert forall|i: int| 0 <= i < w2.len() implies w2[i] != '\\' && w2[i] != ':' by {
            assert(w2[i] == word[i + 1]);
        }
        law_escapes(plain, w2);
        let full = word + seq!['\\', ':'] + plain;
        assert(full.drop_first() =~= w2 + seq!['\\', ':'] + plain);
        assert(!crate::parser::escape_at(full, 0));
        assert(full[0] == word[0]);
        assert(crate::parser::unescape(full) =~= seq![word[0]] + crate::parser::unescape(full.drop_first()));
        assert(word + seq![':'] + plain =~= seq![word[0]] + (w2 + seq![':'] + plain));
    }
}

proof fn lemma_no_colon(s: Seq<char>)
    requires
        forall|i: int| 0 <= i < s.len() ==> s[i] != '\\' && s[i] != ':',
    ensures
        crate::parser::colon_pos(s) == s.len(),
    decreases s.len(),
{
    if s.len() > 0 {
        let r = s.drop_first();
        assert forall|i: int| 0 <= i < r.len() implies r[i] != '\\' && r[i] != ':' by {
            assert(r[i] == s[i + 1]);
        }
        lemma_no_colon(r);
    }
}

proof fn lemma_run_of_name(name: Seq<char>, rest: Seq<char>)
    requires
        forall|i: int| 0 <= i < name.len() ==> name[i] != '{' && name[i] != '}',
        rest.len() > 0,
        rest[0] == '}',
    ensures
        nonbrace_run(name + rest) == name.len(),
    decreases name.len(),
{
    if name.len() == 0 {
        assert((name + rest)[0] == '}');
    } else {
        let n2 = name.drop_first();
        assert forall|i: int| 0 <= i < n2.len() implies n2[i] != '{' && n2[i] != '}' by {
            assert(n2[i] == name[i + 1]);
        }
        lemma_run_of_name(n2, rest);
        assert((name + rest).drop_first() =~= n2 + rest);
    }
}

/// A placeholder `{name}` of a variable that is set is shown as the
/// variable's value.
pub proof fn law_placeholder_filled(vars: Map<Seq<char>, Seq<char>>, name: Seq<char>)
    requires
        name.len() > 0,
        forall|i: int| 0 <= i < name.len() ==> name[i] != '{' && name[i] != '}',
        vars.contains_key(name),
    ensures
        interpolation(vars, braced(name)) == vars[name],
{
    let t = braced(name);
    assert(t.drop_first() =~= name + seq!['}']);
    lemma_run_of_name(name, seq!['}']);
    let k = nonbrace_run(t.drop_first()) as int;
    assert(k == name.len());
    assert(t[k + 1] == '}');
    assert(t.subrange(1, k + 1) =~= name);
    assert(t.skip(k + 2) =~= Seq::<char>::empty());
    assert(brace_names(Seq::<char>::empty()) == Seq::<Seq<char>>::empty());
    assert(brace_names(t) =~= seq![name]);
    let v = vars[name];
    assert(t.take(t.len() as int) =~= t);
    assert(t.skip(t.len() as int) =~= Seq::<char>::empty());
    assert(crate::text::replace_all(Seq::<char>::empty(), t, v) == Seq::<char>::empty());
    assert(crate::text::replace_all(t, t, v) =~= v);
    assert(seq![name].drop_first() =~= Seq::<Seq<char>>::empty());
    assert(fill(vars, seq![name], t) == fill(vars, Seq::<Seq<char>>::empty(), crate::text::replace_all(t, t, v)));
}

/// Taking a choice enters the scene that the selected option names, at its
/// first command.
pub proof fn law_choice_enters_option(m: AppModel)
    requires
        m.state matches crate::engine::StateModel::InChoice { options, selected, .. } && selected < options.len(),
    ensures
        crate::engine::choose_option(m).state == (crate::engine::StateModel::InDialogue {
            scene_id: m.state->options[m.state->selected as int].1,
            cmd_index: 0,
        }),
{
}

/// A jump `load:scene` (or `load:file:scene`) makes the named scene the
/// current one, at its first command.
pub proof fn law_jump_enters_scene(m: AppModel, file: Option<Seq<char>>, target: Seq<char>)
    ensures
        crate::engine::exec_command(m, crate::script::Command::Load { file, target }).state == (
        crate::engine::StateModel::InDialogue { scene_id: target, cmd_index: 0 }),
{
}

/// A dialogue line written as a string never starts music and always has
/// a text; its speaker is the part before the first colon, trimmed, where
/// there is a colon, and there is none without one.
pub proof fn law_string_line(s: Seq<char>)
    ensures
        crate::dialogue::line_from_text(s).music is None,
        crate::dialogue::line_from_text(s).text is Some,
        crate::dialogue::line_from_text(s).speaker == if first_pos(s, ':') < s.len() {
            Some(crate::text::trim(s.take(first_pos(s, ':'))))
        } else {
            None::<Seq<char>>
        },
{
    crate::dialogue::lemma_split_count(s, ':');
    lemma_first_pos(s, ':');
    let parts = crate::text::split_all(s, ':');
    if first_pos(s, ':') < s.len() {
        assert(parts[0] == s.take(first_pos(s, ':')));
    }
}

/// The scene name that a script line heads, if it is a header `[name]`
/// once its comment is cut and it is trimmed.
pub open spec fn header_name(raw: Seq<char>) -> Option<Seq<char>> {
    let l = clean_line(raw);
    if l.len() >= 2 && l[0] == '[' && l.last() == ']' {
        Some(l.subrange(1, l.len() - 1))
    } else {
        None
    }
}

/// The non-empty names of the header lines among `lines`.
pub open spec fn header_names(lines: Seq<Seq<char>>) -> Set<Seq<char>>
    decreases lines.len(),
{
    if lines.len() == 0 {
        Set::empty()
    } else {
        let rest = header_names(lines.drop_last());
        match header_name(lines.last()) {
            Some(n) => if n.len() > 0 {
                rest.insert(n)
            } else {
                rest
            },
            None => rest,
        }
    }
}

/// The command that a script line gives, if it is neither blank nor a
/// header.
pub open spec fn line_command(raw: Seq<char>) -> Option<crate::script::Command> {
    let l = clean_line(raw);
    if l.len() > 0 && header_name(raw) is None {
        match crate::parser::spec_line(l) {
            crate::parser::Line::Cmd(c) => Some(c),
            _ => None,
        }
    } else {
        None
    }
}

/// The commands of `lines`, in order.
pub open spec fn commands_of(lines: Seq<Seq<char>>) -> Seq<crate::script::Command>
    decreases lines.len(),
{
    if lines.len() == 0 {
        seq![]
    } else {
        match line_command(lines.last()) {
            Some(c) => commands_of(lines.drop_last()).push(c),
            None => commands_of(lines.drop_last()),
        }
    }
}

proof fn lemma_run_headers(lines: Seq<Seq<char>>)
    ensures
        run_names(crate::parser::run(lines)) == header_names(lines),
    decreases lines.len(),
{
    if lines.len() > 0 {
        lemma_run_headers(lines.drop_last());
        let a = crate::parser::run(lines.drop_last());
        let raw = lines.last();
        let b = crate::parser::step(a, raw);
        assert(b == crate::parser::run(lines));
        let l = clean_line(raw);
        match header_name(raw) {
            Some(n) => {
                assert(crate::parser::spec_line(l) == crate::parser::Line::Header(n));
                assert(run_names(b) =~= header_names(lines));
            },
            None => {
                if l.len() > 0 {
                    assert(crate::parser::spec_line(l) is Cmd);
                }
                assert(run_names(b) =~= run_names(a));
            },
        }
    }
}

/// The scenes read so far and the one being read, if it has a name.
pub open spec fn run_names(a: Acc) -> Set<Seq<char>> {
    if a.cur.len() > 0 {
        a.scenes.dom().insert(a.cur)
    } else {
        a.scenes.dom()
    }
}

/// The scenes of a script are exactly the non-empty names of its header
/// lines (a header read after its comment is cut and it is trimmed).
pub proof fn law_scene_names(content: Seq<char>)
    ensures
        crate::parser::script_model(content).0.dom() == header_names(crate::text::split_all(content, '\n')),
{
    let lines = crate::text::split_all(content, '\n');
    lemma_run_headers(lines);
    let a = crate::parser::run(lines);
    assert(crate::parser::script_model(content).0.dom() =~= run_names(a));
}

/// While a scene is being read, its commands are those of its lines in
/// file order: lines without a header add their commands at the end and
/// change nothing else.
pub proof fn law_scene_commands_in_order(before: Seq<Seq<char>>, lines: Seq<Seq<char>>)
    requires
        forall|i: int| 0 <= i < lines.len() ==> header_name(#[trigger] lines[i]) is None,
    ensures
        crate::parser::run(before + lines) == (Acc {
            cmds: crate::parser::run(before).cmds + commands_of(lines),
            ..crate::parser::run(before)
        }),
    decreases lines.len(),
{
    if lines.len() == 0 {
        assert(before + lines =~= before);
        assert(crate::parser::run(before).cmds + commands_of(lines) =~= crate::parser::run(before).cmds);
    } else {
        let init = lines.drop_last();
        assert forall|i: int| 0 <= i < init.len() implies header_name(#[trigger] init[i]) is None by {
            assert(init[i] == lines[i]);
        }
        law_scene_commands_in_order(before, init);
        assert((before + lines).drop_last() =~= before + init);
        assert((before + lines).last() == lines.last());
        let raw = lines.last();
        assert(header_name(raw) is None);
        let a = crate::parser::run(before + init);
        let l = clean_line(raw);
        if l.len() > 0 {
            assert(crate::parser::spec_line(l) is Cmd);
            let c = line_command(raw).unwrap();
            assert(crate::parser::run(before).cmds + commands_of(lines) =~= (crate::parser::run(before).cmds
                + commands_of(init)).push(c));
        } else {
            assert(commands_of(lines) == commands_of(init));
        }
    }
}

/// The selection that a list screen shows: the main menu's and the save
/// screen's selection, or the highlighted option of a choice.
pub open spec fn list_selection(m: AppModel) -> int {
    match m.state {
        crate::engine::StateModel::InChoice { selected, .. } => selected as int,
        _ => m.selected as int,
    }
}

/// How many entries a list screen has: the menu's entries, the options of
/// a choice, or the ten save slots.
pub open spec fn list_len(m: AppModel) -> int {
    match m.state {
        crate::engine::StateModel::InChoice { options, .. } => options.len() as int,
        crate::engine::StateModel::SaveSlot => 10,
        _ => m.menu.len() as int,
    }
}

/// On the main menu, a choice and the save screen, an arrow key keeps the
/// screen, moves the selection by at most one in the key's direction, and
/// keeps it on one of the entries (a list held by the engine has at most
/// `usize::MAX` entries). This holds of the engine after the key press
/// and the work it runs, when the engine is waiting for an evaluation or
/// has no work left over; by [`law_run_stops`], a call leaves work over
/// only when it waits or has used up its budget.
pub proof fn law_selection_in_range(m: AppModel, key: crate::engine::Key, saves: Seq<bool>)
    requires
        key is Up || key is Down,
        m.tasks.len() == 0 || m.pending is Some,
        m.state is Menu || m.state is InChoice || m.state is SaveSlot,
        0 <= list_selection(m) < list_len(m) <= usize::MAX,
    ensures
        ({
            let r = crate::engine::run_model(crate::engine::key_step(m, key, saves), crate::engine::STEP_BUDGET as nat);
            &&& (m.state is Menu ==> r.state is Menu)
            &&& (m.state is SaveSlot ==> r.state is SaveSlot)
            &&& (m.state is InChoice ==> r.state is InChoice)
            &&& list_len(r) == list_len(m)
            &&& 0 <= list_selection(r) < list_len(r)
            &&& (key is Up ==> list_selection(r) == if list_selection(m) > 0 {
                list_selection(m) - 1
            } else {
                0
            })
            &&& (key is Down ==> list_selection(r) == if list_selection(m) + 1 < list_len(m) {
                list_selection(m) + 1
            } else {
                list_selection(m)
            })
        }),
{
    let k = crate::engine::key_step(m, key, saves);
    let m0 = AppModel { status: None, ..m };
    if m.state is Menu {
        if key is Up {
            assert(k == crate::engine::select_up(m0));
        } else {
            assert(k == crate::engine::select_down(m0, m0.menu.len() - 1));
        }
    } else if m.state is SaveSlot {
        if key is Up {
            assert(k == crate::engine::select_up(m0));
        } else {
            assert(k == crate::engine::select_down(m0, 9));
        }
    } else {
        assert(m.state is InChoice);
    }
    assert(k.tasks == m.tasks && k.pending == m.pending);
    assert(crate::engine::run_model(k, crate::engine::STEP_BUDGET as nat) == k);
}

/// How many tasks a run with budget `n` carries out.
pub open spec fn steps_taken(m: AppModel, n: nat) -> nat
    decreases n,
{
    if n == 0 || m.pending is Some || m.tasks.len() == 0 {
        0
    } else {
        1 + steps_taken(crate::engine::step(m), (n - 1) as nat)
    }
}

/// A run stops only when it waits for an evaluation, when no work is left,
/// or when it has carried out as many tasks as its budget allows.
pub proof fn law_run_stops(m: AppModel, n: nat)
    ensures
        ({
            let r = crate::engine::run_model(m, n);
            r.pending is Some || r.tasks.len() == 0 || steps_taken(m, n) == n
        }),
    decreases n,
{
    if !(n == 0 || m.pending is Some || m.tasks.len() == 0) {
        law_run_stops(crate::engine::step(m), (n - 1) as nat);
    }
}

/// A picture, background, music, stop of the music, assignment or
/// conditional jump never holds the story: when one is the current command
/// and its scene has a next command, a skip makes that next command the
/// current one and runs it, then skips on after it.
pub proof fn law_skip_moves_on(m: AppModel, scene: Seq<char>, i: usize, c: crate::script::Command)
    requires
        m.state == (crate::engine::StateModel::InDialogue { scene_id: scene, cmd_index: i }),
        crate::engine::command_at(m, scene, i as int) == Some(c),
        c is Image || c is Background || c is Music || c is MusicStop || c is SetVar || c is If,
        crate::engine::command_at(m, scene, i + 1) is Some,
    ensures
        crate::engine::skip_step(m).state == (crate::engine::StateModel::InDialogue {
            scene_id: scene,
            cmd_index: (i + 1) as usize,
        }),
        crate::engine::skip_step(m).tasks == m.tasks.push(crate::engine::TaskModel::Skip).push(
            crate::engine::TaskModel::Exec(crate::engine::command_at(m, scene, i + 1).unwrap()),
        ),
{
}

/// A run of ASCII decimal digits.
pub open spec fn all_ascii_digits(d: Seq<char>) -> bool {
    d.len() > 0 && forall|i: int| 0 <= i < d.len() ==> '0' <= #[trigger] d[i] && d[i] <= '9'
}

proof fn lemma_strip_plain(s: Seq<char>)
    requires
        forall|i: int| 0 <= i < s.len() ==> !crate::text::is_ws(#[trigger] s[i]),
    ensures
        crate::arith::strip_ws(s) == s,
    decreases s.len(),
{
    if s.len() > 0 {
        let t = s.drop_last();
        assert forall|i: int| 0 <= i < t.len() implies !crate::text::is_ws(#[trigger] t[i]) by {
            assert(t[i] == s[i]);
        }
        lemma_strip_plain(t);
        assert(t.push(s.last()) =~= s);
    }
}

proof fn lemma_no_dots(t: Seq<char>)
    requires
        forall|i: int| 0 <= i < t.len() ==> #[trigger] t[i] != '.',
    ensures
        crate::arith::count(t, '.') == 0,
    decreases t.len(),
{
    if t.len() > 0 {
        let u = t.drop_last();
        assert forall|i: int| 0 <= i < u.len() implies #[trigger] u[i] != '.' by {
            assert(u[i] == t[i]);
        }
        lemma_no_dots(u);
    }
}

/// A number `d` at `i` of `s`, followed by `+`, `-` or the end, is a term
/// of its own.
#[verifier::spinoff_prover]
proof fn lemma_number_term(s: Seq<char>, i: int, d: Seq<char>)
    requires
        0 <= i,
        all_ascii_digits(d),
        i + d.len() <= s.len(),
        s.subrange(i, i + d.len()) == d,
        i + d.len() == s.len() || s[i + d.len()] == '+' || s[i + d.len()] == '-',
    ensures
        crate::arith::p_term(s, i) == Some((crate::arith::ExprModel::Num(d), i + d.len())),
{
    let j = i + d.len();
    assert forall|k: int| i <= k < j implies crate::arith::num_char(#[trigger] s[k]) by {
        assert(s[k] == d[k - i]);
    }
    crate::arith::lemma_num_end(s, i, j);
    assert(crate::arith::num_end(s, j) == j);
    assert(s[i] == d[0]);
    assert forall|k: int| 0 <= k < d.len() implies #[trigger] d[k] != '.' by {}
    lemma_no_dots(d);
    assert(crate::arith::p_factor(s, i) == Some((crate::arith::ExprModel::Num(d), j)));
    assert(crate::arith::p_term_rest(s, crate::arith::ExprModel::Num(d), j) == Some((crate::arith::ExprModel::Num(d), j)));
}

#[verifier::spinoff_prover]
proof fn lemma_two_numbers(a: Seq<char>, b: Seq<char>, op: char)
    requires
        all_ascii_digits(a),
        all_ascii_digits(b),
        op == '-' || op == '+',
    ensures
        crate::text::is_ws(op) == false,
        crate::arith::arith_model(a + seq![op] + b) == Some(
            if op == '-' {
                crate::arith::ExprModel::Sub(Box::new(crate::arith::ExprModel::Num(a)), Box::new(crate::arith::ExprModel::Num(b)))
            } else {
                crate::arith::ExprModel::Add(Box::new(crate::arith::ExprModel::Num(a)), Box::new(crate::arith::ExprModel::Num(b)))
            },
        ),
{
    let na = crate::arith::ExprModel::Num(a);
    let nb = crate::arith::ExprModel::Num(b);
    let la = a.len() as int;
    let lb = b.len() as int;
    let s = a + seq![op] + b;
    assert forall|i: int| 0 <= i < s.len() implies !crate::text::is_ws(#[trigger] s[i]) by {
        if i < la {
            assert(s[i] == a[i]);
        } else if i > la {
            assert(s[i] == b[i - la - 1]);
        }
    }
    lemma_strip_plain(s);
    assert(s.subrange(0, la) =~= a);
    lemma_number_term(s, 0, a);
    assert(s.subrange(la + 1, la + 1 + lb) =~= b);
    lemma_number_term(s, la + 1, b);
    let e = if op == '-' {
        crate::arith::ExprModel::Sub(Box::new(na), Box::new(nb))
    } else {
        crate::arith::ExprModel::Add(Box::new(na), Box::new(nb))
    };
    assert(crate::arith::p_expr_rest(s, e, s.len() as int) == Some((e, s.len() as int)));
    assert(crate::arith::p_expr_rest(s, na, la) == Some((e, s.len() as int)));
}

/// In arithmetic, `-` takes what stands before it from what stands after
/// it, and a chain of subtractions goes from the left: `a-b` is `a` minus
/// `b`, and `a-b-c` is `(a-b)-c`; `+` keeps its operands in order too.
#[verifier::spinoff_prover]
#[verifier::rlimit(60)]
pub proof fn law_subtraction_order(a: Seq<char>, b: Seq<char>, c: Seq<char>)
    requires
        all_ascii_digits(a),
        all_ascii_digits(b),
        all_ascii_digits(c),
    ensures
        crate::arith::arith_model(a + seq!['-'] + b) == Some(
            crate::arith::ExprModel::Sub(Box::new(crate::arith::ExprModel::Num(a)), Box::new(crate::arith::ExprModel::Num(b))),
        ),
        crate::arith::arith_model(a + seq!['+'] + b) == Some(
            crate::arith::ExprModel::Add(Box::new(crate::arith::ExprModel::Num(a)), Box::new(crate::arith::ExprModel::Num(b))),
        ),
        crate::arith::arith_model(a + seq!['-'] + b + seq!['-'] + c) == Some(
            crate::arith::ExprModel::Sub(
                Box::new(
                    crate::arith::ExprModel::Sub(
                        Box::new(crate::arith::ExprModel::Num(a)),
                        Box::new(crate::arith::ExprModel::Num(b)),
                    ),
                ),
                Box::new(crate::arith::ExprModel::Num(c)),
            ),
        ),
{
    let na = crate::arith::ExprModel::Num(a);
    let nb = crate::arith::ExprModel::Num(b);
    let nc = crate::arith::ExprModel::Num(c);
    let la = a.len() as int;
    let lb = b.len() as int;
    lemma_two_numbers(a, b, '-');
    lemma_two_numbers(a, b, '+');
    let s3 = a + seq!['-'] + b + seq!['-'] + c;
    let lc = c.len() as int;
    assert forall|i: int| 0 <= i < s3.len() implies !crate::text::is_ws(#[trigger] s3[i]) by {
        if i < la {
            assert(s3[i] == a[i]);
        } else if la < i < la + 1 + lb {
            assert(s3[i] == b[i - la - 1]);
        } else if i > la + 1 + lb {
            assert(s3[i] == c[i - la - lb - 2]);
        }
    }
    lemma_strip_plain(s3);
    assert(s3.subrange(0, la) =~= a);
    lemma_number_term(s3, 0, a);
    assert(s3.subrange(la + 1, la + 1 + lb) =~= b);
    lemma_number_term(s3, la + 1, b);
    assert(s3.subrange(la + lb + 2, la + lb + 2 + lc) =~= c);
    lemma_number_term(s3, la + lb + 2, c);
    let e1 = crate::arith::ExprModel::Sub(Box::new(na), Box::new(nb));
    let e2 = crate::arith::ExprModel::Sub(Box::new(e1), Box::new(nc));
    assert(crate::arith::p_expr_rest(s3, e2, s3.len() as int) == Some((e2, s3.len() as int)));
    assert(crate::arith::p_expr_rest(s3, e1, la + lb + 1) == Some((e2, s3.len() as int)));
    assert(crate::arith::p_expr_rest(s3, na, la) == Some((e2, s3.len() as int)));
}

/// A side of a comparison: no comparison character in it.
pub open spec fn plain_side(x: Seq<char>) -> bool {
    forall|i: int| 0 <= i < x.len() ==> #[trigger] x[i] != '<' && x[i] != '>' && x[i] != '=' && x[i] != '!'
}

proof fn lemma_sub_pos_none(s: Seq<char>, p: Seq<char>, i: int)
    requires
        0 <= i,
        forall|j: int| i <= j && j + p.len() <= s.len() ==> #[trigger] s.subrange(j, j + p.len()) != p,
    ensures
        crate::arith::sub_pos_from(s, p, i) == s.len(),
    decreases s.len() - i,
{
    if i < s.len() {
        lemma_sub_pos_none(s, p, i + 1);
    }
}

proof fn lemma_sub_pos_at(s: Seq<char>, p: Seq<char>, i: int, k: int)
    requires
        0 <= i <= k,
        k + p.len() <= s.len(),
        k < s.len(),
        s.subrange(k, k + p.len()) == p,
        forall|j: int| i <= j < k ==> #[trigger] s.subrange(j, j + p.len()) != p,
    ensures
        crate::arith::sub_pos_from(s, p, i) == k,
    decreases k - i,
{
    if i < k {
        lemma_sub_pos_at(s, p, i + 1, k);
    }
}

/// A condition `L <= R` is read first as "L is at most R": the readings
/// of a condition that holds one `<=` between two sides without
/// comparison characters are, in order, the `<=` reading with both sides
/// trimmed, then the `<` reading whose right side keeps the `=`.
#[verifier::spinoff_prover]
pub proof fn law_at_most_condition(l: Seq<char>, r: Seq<char>)
    requires
        plain_side(l),
        plain_side(r),
    ensures
        ({
            let c = crate::arith::candidates(l + seq!['<', '='] + r, crate::arith::op_order());
            &&& c.len() == 2
            &&& c[0] == (crate::arith::CmpOp::Le, crate::text::trim(l), crate::text::trim(r))
            &&& c[1] == (crate::arith::CmpOp::Lt, crate::text::trim(l), crate::text::trim(seq!['='] + r))
        }),
{
    let s = l + seq!['<', '='] + r;
    let n = l.len() as int;
    assert forall|j: int| 0 <= j < s.len() implies (#[trigger] s[j] == '<' <==> j == n) && (s[j] == '=' <==> j == n + 1)
        && s[j] != '>' && s[j] != '!' by {
        if j < n {
            assert(s[j] == l[j]);
        } else if j > n + 1 {
            assert(s[j] == r[j - n - 2]);
        }
    }
    let ge = seq!['>', '='];
    let le = seq!['<', '='];
    let eq = seq!['=', '='];
    let ne = seq!['!', '='];
    let gt = seq!['>'];
    let lt = seq!['<'];
    assert forall|j: int| 0 <= j && j + 2 <= s.len() implies #[trigger] s.subrange(j, j + 2) != ge && s.subrange(j, j + 2) != ne && s.subrange(j, j + 2) != eq by {
        assert(s.subrange(j, j + 2)[0] == s[j]);
        assert(s.subrange(j, j + 2)[1] == s[j + 1]);
    }
    assert forall|j: int| 0 <= j && j + 1 <= s.len() implies #[trigger] s.subrange(j, j + 1) != gt by {
        assert(s.subrange(j, j + 1)[0] == s[j]);
    }
    assert forall|j: int| 0 <= j < n implies #[trigger] s.subrange(j, j + 2) != le by {
        assert(s.subrange(j, j + 2)[0] == s[j]);
    }
    assert forall|j: int| 0 <= j < n implies #[trigger] s.subrange(j, j + 1) != lt by {
        assert(s.subrange(j, j + 1)[0] == s[j]);
    }
    assert(s.subrange(n, n + 2) =~= le);
    assert(s.subrange(n, n + 1) =~= lt);
    lemma_sub_pos_none(s, ge, 0);
    lemma_sub_pos_none(s, eq, 0);
    lemma_sub_pos_none(s, ne, 0);
    lemma_sub_pos_none(s, gt, 0);
    lemma_sub_pos_at(s, le, 0, n);
    lemma_sub_pos_at(s, lt, 0, n);
    assert(s.take(n) =~= l);
    assert(s.skip(n + 2) =~= r);
    assert(s.skip(n + 1) =~= seq!['='] + r);
    let ops = crate::arith::op_order();
    assert(crate::arith::split_at_op(s, crate::arith::CmpOp::Ge) is None);
    assert(crate::arith::split_at_op(s, crate::arith::CmpOp::Eq) is None);
    assert(crate::arith::split_at_op(s, crate::arith::CmpOp::Ne) is None);
    assert(crate::arith::split_at_op(s, crate::arith::CmpOp::Gt) is None);
    assert(crate::arith::split_at_op(s, crate::arith::CmpOp::Le) == Some((crate::arith::CmpOp::Le, crate::text::trim(l), crate::text::trim(r))));
    assert(crate::arith::split_at_op(s, crate::arith::CmpOp::Lt) == Some((crate::arith::CmpOp::Lt, crate::text::trim(l), crate::text::trim(seq!['='] + r))));
    let o1 = ops.take(1);
    let o2 = ops.take(2);
    let o3 = ops.take(3);
    let o4 = ops.take(4);
    let o5 = ops.take(5);
    assert(o1.drop_last() =~= Seq::<crate::arith::CmpOp>::empty());
    assert(o2.drop_last() =~= o1);
    assert(o3.drop_last() =~= o2);
    assert(o4.drop_last() =~= o3);
    assert(o5.drop_last() =~= o4);
    assert(ops.drop_last() =~= o5);
    let c1 = crate::arith::candidates(s, o1);
    assert(o1.last() == crate::arith::CmpOp::Ge);
    assert(crate::arith::candidates(s, o1.drop_last()) =~= Seq::<(crate::arith::CmpOp, Seq<char>, Seq<char>)>::empty());
    assert(c1 =~= Seq::<(crate::arith::CmpOp, Seq<char>, Seq<char>)>::empty());
    let c2 = crate::arith::candidates(s, o2);
    assert(c2 =~= seq![(crate::arith::CmpOp::Le, crate::text::trim(l), crate::text::trim(r))]);
    let c3 = crate::arith::candidates(s, o3);
    assert(c3 =~= c2);
    let c4 = crate::arith::candidates(s, o4);
    assert(c4 =~= c2);
    let c5 = crate::arith::candidates(s, o5);
    assert(c5 =~= c2);
    let c6 = crate::arith::candidates(s, ops);
    assert(c6 =~= c2.push((crate::arith::CmpOp::Lt, crate::text::trim(l), crate::text::trim(seq!['='] + r))));
}

/// No braces in a text.
pub open spec fn brace_free(x: Seq<char>) -> bool {
    forall|i: int| 0 <= i < x.len() ==> #[trigger] x[i] != '{' && x[i] != '}'
}

proof fn lemma_replace_plain_prefix(x: Seq<char>, q: Seq<char>, p: Seq<char>, v: Seq<char>)
    requires
        p.len() > 0,
        p[0] == '{',
        forall|i: int| 0 <= i < x.len() ==> #[trigger] x[i] != '{',
    ensures
        crate::text::replace_all(x + q, p, v) == x + crate::text::replace_all(q, p, v),
    decreases x.len(),
{
    if x.len() == 0 {
        assert(x + q =~= q);
        assert(x + crate::text::replace_all(q, p, v) =~= crate::text::replace_all(q, p, v));
    } else {
        let s = x + q;
        let x2 = x.drop_first();
        assert forall|i: int| 0 <= i < x2.len() implies #[trigger] x2[i] != '{' by {
            assert(x2[i] == x[i + 1]);
        }
        lemma_replace_plain_prefix(x2, q, p, v);
        assert(s.drop_first() =~= x2 + q);
        if s.len() < p.len() {
            assert(q.len() < p.len());
            assert(crate::text::replace_all(q, p, v) == q);
            assert(x + q =~= x + crate::text::replace_all(q, p, v));
        } else {
            assert(s.take(p.len() as int)[0] == x[0]);
            assert(s.take(p.len() as int) != p);
            assert(x + crate::text::replace_all(q, p, v) =~= seq![x[0]] + (x2 + crate::text::replace_all(q, p, v)));
        }
    }
}

#[verifier::spinoff_prover]
proof fn lemma_other_placeholder(a: Seq<char>, b: Seq<char>, v: Seq<char>)
    requires
        a.len() > 0,
        brace_free(a),
        brace_free(b),
        a != b,
    ensures
        crate::text::replace_all(braced(b), braced(a), v) == braced(b),
{
    let p = braced(a);
    let t = braced(b);
    let rest = b + seq!['}'];
    assert forall|i: int| 0 <= i < rest.len() implies #[trigger] rest[i] != '{' by {
        if i < b.len() {
            assert(rest[i] == b[i]);
        }
    }
    lemma_replace_plain_prefix(rest, Seq::<char>::empty(), p, v);
    assert(rest + Seq::<char>::empty() =~= rest);
    assert(crate::text::replace_all(Seq::<char>::empty(), p, v) == Seq::<char>::empty());
    if t.len() >= p.len() {
        if t.take(p.len() as int) == p {
            if b.len() > a.len() {
                assert(t.take(p.len() as int)[a.len() as int + 1] == b[a.len() as int]);
                assert(p[a.len() as int + 1] == '}');
            } else {
                assert(t =~= t.take(p.len() as int));
                assert(a =~= p.subrange(1, p.len() - 1));
                assert(b =~= t.subrange(1, t.len() - 1));
            }
        }
        assert(t.drop_first() =~= rest);
        assert(seq!['{'] + rest =~= t);
    }
}

/// Every placeholder of a set variable is filled, not only the first:
/// for two different set names, `{a} {b}` shows as the value of `a`, a
/// space and the value of `b` (names and values without braces).
#[verifier::spinoff_prover]
pub proof fn law_two_placeholders(vars: Map<Seq<char>, Seq<char>>, a: Seq<char>, b: Seq<char>)
    requires
        a.len() > 0,
        b.len() > 0,
        brace_free(a),
        brace_free(b),
        a != b,
        vars.contains_key(a),
        vars.contains_key(b),
        brace_free(vars[a]),
        brace_free(vars[b]),
    ensures
        interpolation(vars, braced(a) + seq![' '] + braced(b)) == vars[a] + seq![' '] + vars[b],
{
    let t = braced(a) + seq![' '] + braced(b);
    let va = vars[a];
    let vb = vars[b];
    let tail = seq![' '] + braced(b);
    // the names of the placeholders
    assert(t.drop_first() =~= a + (seq!['}'] + tail));
    lemma_run_of_name(a, seq!['}'] + tail);
    assert(t.subrange(1, a.len() as int + 1) =~= a);
    assert(t.skip(a.len() as int + 2) =~= tail);
    assert(tail.drop_first() =~= braced(b));
    let bt = braced(b);
    assert(bt.drop_first() =~= b + seq!['}']);
    lemma_run_of_name(b, seq!['}']);
    assert(bt.subrange(1, b.len() as int + 1) =~= b);
    assert(bt.skip(b.len() as int + 2) =~= Seq::<char>::empty());
    assert(brace_names(Seq::<char>::empty()) == Seq::<Seq<char>>::empty());
    assert(brace_names(bt) =~= seq![b]);
    assert(brace_names(tail) == brace_names(bt));
    assert(brace_names(t) =~= seq![a, b]);
    // the first placeholder
    let pa = braced(a);
    assert(t.take(pa.len() as int) =~= pa);
    assert(t.skip(pa.len() as int) =~= tail);
    lemma_replace_plain_prefix(seq![' '], bt, pa, va);
    lemma_other_placeholder(a, b, va);
    let acc1 = crate::text::replace_all(t, pa, va);
    assert(acc1 == va + crate::text::replace_all(tail, pa, va));
    assert(acc1 =~= (va + seq![' ']) + bt);
    // the second placeholder
    let x = va + seq![' '];
    assert forall|i: int| 0 <= i < x.len() implies #[trigger] x[i] != '{' by {
        if i < va.len() {
            assert(x[i] == va[i]);
        }
    }
    lemma_replace_plain_prefix(x, bt, bt, vb);
    assert(bt.take(bt.len() as int) =~= bt);
    assert(bt.skip(bt.len() as int) =~= Seq::<char>::empty());
    assert(crate::text::replace_all(Seq::<char>::empty(), bt, vb) == Seq::<char>::empty());
    assert(crate::text::replace_all(bt, bt, vb) =~= vb);
    let acc2 = crate::text::replace_all(acc1, bt, vb);
    assert(acc2 =~= va + seq![' '] + vb);
    let names = seq![a, b];
    assert(names.drop_first() =~= seq![b]);
    assert(seq![b].drop_first() =~= Seq::<Seq<char>>::empty());
    assert(fill(vars, seq![b], acc1) == fill(vars, Seq::<Seq<char>>::empty(), acc2));
    assert(fill(vars, names, t) == fill(vars, seq![b], acc1));
}

/// A variable name written with ASCII letters, digits and `_` (letters
/// and digits being what `char::is_alphanumeric` accepts).
pub open spec fn ascii_name(n: Seq<char>) -> bool {
    &&& n.len() > 0
    &&& forall|i: int| 0 <= i < n.len() ==> {
        let c = #[trigger] n[i];
        ||| c == '_'
        ||| (crate::text::alphanumeric(c) && (('a' <= c && c <= 'z') || ('A' <= c && c <= 'Z') || ('0' <= c && c <= '9')))
    }
}

/// A line `name = value` assigns the variable: for a name of letters,
/// digits and `_` (other than `if`) and a value that is trimmed, not empty
/// and does not begin with `=`, the line reads as setting the name to the
/// value.
#[verifier::spinoff_prover]
pub proof fn law_assignment_line(n: Seq<char>, v: Seq<char>)
    requires
        ascii_name(n),
        n != seq!['i', 'f'],
        v.len() > 0,
        crate::text::trim(v) == v,
        v[0] != '=',
    ensures
        crate::parser::spec_line(n + seq![' ', '=', ' '] + v) == crate::parser::Line::Cmd(
            crate::script::Command::SetVar { name: n, value: v },
        ),
{
    let l = n + seq![' ', '=', ' '] + v;
    let k = n.len() as int;
    assert forall|i: int| 0 <= i < k implies #[trigger] l[i] == n[i] by {}
    assert forall|i: int| 0 <= i < k implies #[trigger] l[i] != '=' && l[i] != ':' && l[i] != '[' && !crate::text::is_ws(l[i]) by {
        assert(l[i] == n[i]);
    }
    assert(l[k] == ' ' && l[k + 1] == '=' && l[k + 2] == ' ');
    assert(l.last() == v.last());
    // not a header
    assert(l[0] == n[0]);
    // no command word: each needs a colon where the line has a name
    // character, a space or `=`
    assert(!crate::parser::starts(l, crate::parser::lit_img())) by {
        if crate::parser::starts(l, crate::parser::lit_img()) {
            assert(l.take(4)[3] == ':');
            assert(l[3] == ':');
        }
    }
    assert(!crate::parser::starts(l, crate::parser::lit_bg())) by {
        if crate::parser::starts(l, crate::parser::lit_bg()) {
            assert(l.take(3)[2] == ':');
            assert(l[2] == ':');
        }
    }
    assert(!crate::parser::starts(l, crate::parser::lit_music())) by {
        if crate::parser::starts(l, crate::parser::lit_music()) {
            assert(l.take(6)[5] == ':');
            assert(l.take(6)[0] == 'm' && l.take(6)[1] == 'u');
            assert(l[5] == ':');
        }
    }
    assert(!crate::parser::starts(l, crate::parser::lit_choose())) by {
        if crate::parser::starts(l, crate::parser::lit_choose()) {
            assert(l.take(7)[6] == ':');
            assert(l[6] == ':');
            assert(l[0] == 'c' && l[1] == 'h' && l[2] == 'o' && l[3] == 'o' && l[4] == 's' && l[5] == 'e');
        }
    }
    assert(!crate::parser::starts(l, crate::parser::lit_load())) by {
        if crate::parser::starts(l, crate::parser::lit_load()) {
            assert(l.take(5)[4] == ':');
            assert(l[4] == ':');
            assert(l[0] == 'l' && l[1] == 'o' && l[2] == 'a' && l[3] == 'd');
        }
    }
    assert(!crate::parser::starts(l, crate::parser::lit_input())) by {
        if crate::parser::starts(l, crate::parser::lit_input()) {
            assert(l.take(6)[5] == ':');
            assert(l[5] == ':');
            assert(l[0] == 'i' && l[1] == 'n' && l[2] == 'p' && l[3] == 'u' && l[4] == 't');
        }
    }
    assert(!crate::parser::if_line(l)) by {
        if crate::parser::if_line(l) {
            assert(l[0] == 'i' && l[1] == 'f');
            if k >= 3 {
                assert(!crate::text::is_ws(l[2]));
            } else if k == 2 {
                assert(n =~= seq!['i', 'f']);
            } else {
                assert(l[1] == ' ');
            }
        }
    }
    assert(l != crate::parser::lit_end()) by {
        if l == crate::parser::lit_end() {
            assert(l.len() == 3);
            assert(l[k + 1] == '=');
        }
    }
    // the assignment
    crate::text::lemma_first_pos_at(l, '=', k + 1);
    assert(l.take(k + 1) =~= n + seq![' ']);
    assert(l.skip(k + 2) =~= seq![' '] + v);
    let nt = n + seq![' '];
    assert(crate::text::trim_start(nt) == nt);
    assert(nt.drop_last() =~= n);
    assert(crate::text::trim_end(n) == n);
    assert(crate::text::trim(nt) == n);
    let vt = seq![' '] + v;
    assert(vt.drop_first() =~= v);
    assert(crate::text::trim_start(vt) == crate::text::trim_start(v));
    assert(crate::text::trim(vt) == v);
    assert(crate::parser::all_ident(n));
    assert(crate::parser::assignment(l) == Some((n, v)));
}

} // verus!
