//! What the screen shows in words: the text box at the bottom, the lines
//! of the history list and the labels of the save slots. Drawing them is
//! left to the caller.
use vstd::prelude::*;
use crate::engine::{App, AppModel, AppState, StateModel, current_command};
use crate::parser::strings_view;
use crate::script::{Command, opt_view};
use crate::text::{chars_of, decimal, decimal_chars, join3, push_all, string_of};
use crate::variables::interpolation;

verus! {

/// The label of a save slot in the save and load lists: its number and
/// the time of its save, or that it is empty, or that it holds a save
/// that could not be read.
pub open spec fn slot_label_text(slot: nat, saved: bool, timestamp: Option<Seq<char>>) -> Seq<char> {
    if !saved {
        "存档槽 "@ + decimal(slot) + " (空)"@
    } else {
        match timestamp {
            Some(t) => "存档槽 "@ + decimal(slot) + " - "@ + t,
            None => "存档槽 "@ + decimal(slot) + " (有存档)"@,
        }
    }
}

/// The label of save slot `slot`; `timestamp` is the time of its save
/// where the save could be read.
pub fn slot_label(slot: usize, saved: bool, timestamp: Option<&str>) -> (r: String)
    ensures
        r@ == slot_label_text(
            slot as nat,
            saved,
            match timestamp {
                Some(t) => Some(t@),
                None => None,
            },
        ),
{
    let d = decimal_chars(slot as u64);
    if !saved {
        join3("存档槽 ", d.as_slice(), " (空)")
    } else {
        match timestamp {
            Some(t) => {
                let mut mid = d;
                let sep = chars_of(" - ");
                push_all(&mut mid, sep.as_slice());
                let tc = chars_of(t);
                push_all(&mut mid, tc.as_slice());
                let r = join3("存档槽 ", mid.as_slice(), "");
                proof {
                    reveal_strlit("");
                    assert(r@ =~= "存档槽 "@ + decimal(slot as nat) + " - "@ + t@);
                }
                r
            },
            None => join3("存档槽 ", d.as_slice(), " (有存档)"),
        }
    }
}

/// One line of the history list: `[speaker] text`, or the text alone.
pub open spec fn history_line(e: (Option<Seq<char>>, Seq<char>)) -> Seq<char> {
    match e.0 {
        Some(s) => "["@ + s + "] "@ + e.1,
        None => e.1,
    }
}

/// The history list, newest line first.
pub open spec fn history_list(h: Seq<(Option<Seq<char>>, Seq<char>)>) -> Seq<Seq<char>> {
    Seq::new(h.len(), |i: int| history_line(h[h.len() - 1 - i]))
}

/// What the text box shows in a state: the name line and the text.
pub open spec fn panel_content(m: AppModel, first_slot_saved: bool, line: Option<Seq<char>>) -> (Seq<char>, Seq<char>) {
    match m.state {
        StateModel::Menu => ("系统"@, m.footer + " | q 退出"@),
        StateModel::Settings => (
            "设置"@,
            "按 +/- 调节BGM音量，[ ] 调节语音音量，A 切换自动播放，1/2 调节速度，S 保存，ESC 返回"@,
        ),
        StateModel::About => ("关于"@, "按 ESC 返回"@),
        StateModel::History => ("历史记录"@, "按 ESC 或 H 关闭"@),
        StateModel::LoadSlot => (
            "读档"@,
            if first_slot_saved {
                "↑↓ 移动，Enter 确认，ESC 返回"@
            } else {
                "暂无存档，ESC 返回"@
            },
        ),
        StateModel::SaveSlot => ("存档"@, "↑↓ 移动，Enter 确认，ESC 返回"@),
        StateModel::Input { .. } => ("输入"@, "请输入内容"@),
        StateModel::InDialogue { .. } => (
            match current_command(m) {
                Some(Command::Text { speaker: Some(s), .. }) => interpolation(m.vars, s),
                _ => Seq::empty(),
            },
            match line {
                Some(t) => t,
                None => Seq::empty(),
            },
        ),
        StateModel::InChoice { .. } => ("系统"@, "请选择一项："@),
        StateModel::GameMenu => ("菜单"@, "↑↓ 移动，Enter 确认，1 继续 2 存档 3 读档 q 主菜单"@),
        StateModel::EndOfFile => ("系统"@, "按任意键返回主菜单"@),
    }
}

/// The text box: the name line, the text (the status message where there
/// is one, else what the state shows) and whether the text is the status
/// message.
pub open spec fn panel(m: AppModel, first_slot_saved: bool, line: Option<Seq<char>>) -> (Seq<char>, Seq<char>, bool) {
    let (name, content) = panel_content(m, first_slot_saved, line);
    match m.status {
        Some(s) => (name, s, true),
        None => (name, content, false),
    }
}

impl App {
    /// The lines of the history list, newest first.
    pub fn history_lines(&self) -> (r: Vec<String>)
        ensures
            strings_view(r@) == history_list(self.model().history),
    {
        let n = self.history.len();
        let ghost h = self.model().history;
        let mut out: Vec<String> = Vec::new();
        let mut k: usize = 0;
        while k < n
            invariant
                k <= n == h.len(),
                h == self.model().history,
                strings_view(out@) == history_list(h).take(k as int),
            decreases n - k,
        {
            let e = &self.history[n - 1 - k];
            assert(h[n - 1 - k] == (opt_view(e.0), e.1@));
            let line = match &e.0 {
                Some(s) => {
                    let sc = chars_of(s.as_str());
                    let mut v: Vec<char> = Vec::new();
                    v.push('[');
                    push_all(&mut v, sc.as_slice());
                    v.push(']');
                    v.push(' ');
                    let tc = chars_of(e.1.as_str());
                    push_all(&mut v, tc.as_slice());
                    proof {
                        reveal_strlit("[");
                        reveal_strlit("] ");
                        assert(v@ =~= "["@ + s@ + "] "@ + e.1@);
                    }
                    string_of(v.as_slice())
                },
                None => e.1.clone(),
            };
            let ghost old_out = out@;
            out.push(line);
            assert(strings_view(out@) =~= strings_view(old_out).push(line@));
            assert(history_list(h).take(k + 1) =~= history_list(h).take(k as int).push(history_list(h)[k as int]));
            k = k + 1;
        }
        assert(history_list(h).take(n as int) =~= history_list(h));
        out
    }

    /// What the text box shows; `first_slot_saved` tells whether slot 1
    /// holds a save, `line` is the current line's text with its
    /// `$(command)` parts run.
    pub fn bottom_panel(&self, first_slot_saved: bool, line: Option<String>) -> (r: (String, String, bool))
        ensures
            (r.0@, r.1@, r.2) == panel(self.model(), first_slot_saved, opt_view(line)),
    {
        let (name, content): (String, String) = match &self.state {
            AppState::Menu => {
                let e: Vec<char> = Vec::new();
                let t = join3(self.footer.as_str(), e.as_slice(), " | q 退出");
                assert(t@ =~= self.footer@ + " | q 退出"@);
                ("系统".to_string(), t)
            },
            AppState::Settings => (
                "设置".to_string(),
                "按 +/- 调节BGM音量，[ ] 调节语音音量，A 切换自动播放，1/2 调节速度，S 保存，ESC 返回".to_string(),
            ),
            AppState::About => ("关于".to_string(), "按 ESC 返回".to_string()),
            AppState::History => ("历史记录".to_string(), "按 ESC 或 H 关闭".to_string()),
            AppState::LoadSlot => (
                "读档".to_string(),
                if first_slot_saved {
                    "↑↓ 移动，Enter 确认，ESC 返回".to_string()
                } else {
                    "暂无存档，ESC 返回".to_string()
                },
            ),
            AppState::SaveSlot => ("存档".to_string(), "↑↓ 移动，Enter 确认，ESC 返回".to_string()),
            AppState::Input { .. } => ("输入".to_string(), "请输入内容".to_string()),
            AppState::InDialogue { .. } => {
                let speaker = match self.current_speaker() {
                    Some(s) => s,
                    None => String::new(),
                };
                let text = match line {
                    Some(t) => t,
                    None => String::new(),
                };
                (speaker, text)
            },
            AppState::InChoice { .. } => ("系统".to_string(), "请选择一项：".to_string()),
            AppState::GameMenu => (
                "菜单".to_string(),
                "↑↓ 移动，Enter 确认，1 继续 2 存档 3 读档 q 主菜单".to_string(),
            ),
            AppState::EndOfFile => ("系统".to_string(), "按任意键返回主菜单".to_string()),
        };
        match &self.status_message {
            Some(s) => (name, s.clone(), true),
            None => (name, content, false),
        }
    }
}

} // verus!
