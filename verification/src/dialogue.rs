//! The JSON form of a story: scenes with dialogue lines and options. A
//! dialogue line is either an object or a string `speaker:text:voice`.
use vstd::prelude::*;
use crate::script::opt_view;
use crate::text::{chars_of, find_char, first_pos, lemma_first_pos, slice_vec, split_all, split_chars, string_of, trim, trim_chars, views};

verus! {

/// A line of dialogue; `music` starts background music.
pub struct DialogueLine {
    pub speaker: Option<String>,
    pub text: Option<String>,
    pub voice: Option<String>,
    pub music: Option<String>,
}

/// The plain-value model of [`DialogueLine`].
pub struct LineModel {
    pub speaker: Option<Seq<char>>,
    pub text: Option<Seq<char>>,
    pub voice: Option<Seq<char>>,
    pub music: Option<Seq<char>>,
}

impl View for DialogueLine {
    type V = LineModel;

    open spec fn view(&self) -> LineModel {
        LineModel {
            speaker: opt_view(self.speaker),
            text: opt_view(self.text),
            voice: opt_view(self.voice),
            music: opt_view(self.music),
        }
    }
}

/// A choice: its label and the scene it leads to.
pub struct OptionData {
    pub text: String,
    pub next_scene: String,
}

/// A scene: its lines and the choices at its end.
pub struct SceneData {
    pub dialogue: Vec<DialogueLine>,
    pub options: Vec<OptionData>,
}

/// A whole story.
pub struct DialogueDB {
    pub title: String,
    pub footer: String,
    pub scenes: Vec<(String, SceneData)>,
    pub initial_scene: String,
}

/// The line that a string stands for: with two colons `speaker:text:voice`,
/// with one `speaker:text`, without any plain narration; with more, the
/// first two colons separate the parts and the voice keeps the rest. Every
/// part is trimmed.
pub open spec fn line_from_text(s: Seq<char>) -> LineModel {
    let parts = split_all(s, ':');
    if parts.len() == 3 {
        LineModel {
            speaker: Some(trim(parts[0])),
            text: Some(trim(parts[1])),
            voice: Some(trim(parts[2])),
            music: None,
        }
    } else if parts.len() == 2 {
        LineModel { speaker: Some(trim(parts[0])), text: Some(trim(parts[1])), voice: None, music: None }
    } else if parts.len() == 1 {
        LineModel { speaker: None, text: Some(trim(s)), voice: None, music: None }
    } else {
        let i = first_pos(s, ':');
        let rest = trim(s.skip(i + 1));
        let j = first_pos(rest, ':');
        if j < rest.len() {
            LineModel {
                speaker: Some(trim(s.take(i))),
                text: Some(trim(rest.take(j))),
                voice: Some(trim(rest.skip(j + 1))),
                music: None,
            }
        } else {
            LineModel { speaker: Some(trim(s.take(i))), text: Some(rest), voice: None, music: None }
        }
    }
}

pub proof fn lemma_split_count(s: Seq<char>, c: char)
    ensures
        split_all(s, c).len() >= 1,
        first_pos(s, c) >= s.len() ==> split_all(s, c).len() == 1,
        first_pos(s, c) < s.len() ==> split_all(s, c).len() >= 2,
        first_pos(s, c) < s.len() && first_pos(s.skip(first_pos(s, c) + 1), c) >= s.skip(first_pos(s, c) + 1).len() ==> split_all(s, c).len() == 2,
        first_pos(s, c) < s.len() && first_pos(s.skip(first_pos(s, c) + 1), c) < s.skip(first_pos(s, c) + 1).len() ==> split_all(s, c).len() >= 3,
{
    lemma_first_pos(s, c);
    if first_pos(s, c) < s.len() {
        let r = s.skip(first_pos(s, c) + 1);
        lemma_first_pos(r, c);
        reveal_with_fuel(split_all, 3);
    }
}

fn piece(v: &Vec<Vec<char>>, i: usize) -> (r: String)
    requires
        i < v@.len(),
    ensures
        r@ == trim(views(v@)[i as int]),
{
    assert(views(v@)[i as int] == v@[i as int]@);
    let t = trim_chars(v[i].as_slice());
    string_of(t.as_slice())
}

impl DialogueLine {
    /// The line that a string of a scene's dialogue stands for.
    pub fn from_script_text(s: &str) -> (r: DialogueLine)
        ensures
            r@ == line_from_text(s@),
    {
        let c = chars_of(s);
        let parts = split_chars(c.as_slice(), ':');
        proof {
            lemma_split_count(s@, ':');
        }
        let n = parts.len();
        if n == 3 {
            DialogueLine {
                speaker: Some(piece(&parts, 0)),
                text: Some(piece(&parts, 1)),
                voice: Some(piece(&parts, 2)),
                music: None,
            }
        } else if n == 2 {
            DialogueLine { speaker: Some(piece(&parts, 0)), text: Some(piece(&parts, 1)), voice: None, music: None }
        } else if n == 1 {
            let t = trim_chars(c.as_slice());
            DialogueLine { speaker: None, text: Some(string_of(t.as_slice())), voice: None, music: None }
        } else {
            let i = find_char(c.as_slice(), ':');
            proof {
                lemma_first_pos(s@, ':');
                assert(n >= 4);
                assert(i < c.len());
            }
            let a = slice_vec(c.as_slice(), 0, i);
            let b = slice_vec(c.as_slice(), i + 1, c.len());
            assert(a@ =~= s@.take(i as int));
            assert(b@ =~= s@.skip(i + 1));
            let speaker = trim_chars(a.as_slice());
            let rest = trim_chars(b.as_slice());
            let j = find_char(rest.as_slice(), ':');
            proof {
                lemma_first_pos(rest@, ':');
            }
            if j >= rest.len() {
                return DialogueLine {
                    speaker: Some(string_of(speaker.as_slice())),
                    text: Some(string_of(rest.as_slice())),
                    voice: None,
                    music: None,
                };
            }
            let ta = slice_vec(rest.as_slice(), 0, j);
            let tb = slice_vec(rest.as_slice(), j + 1, rest.len());
            assert(ta@ =~= rest@.take(j as int));
            assert(tb@ =~= rest@.skip(j + 1));
            let tt = trim_chars(ta.as_slice());
            let tv = trim_chars(tb.as_slice());
            DialogueLine {
                speaker: Some(string_of(speaker.as_slice())),
                text: Some(string_of(tt.as_slice())),
                voice: Some(string_of(tv.as_slice())),
                music: None,
            }
        }
    }
}

} // verus!
