//! The commands of a script and their plain-value model.
use vstd::prelude::*;

verus! {

/// An optional string taken by its characters.
pub open spec fn opt_view(o: Option<String>) -> Option<Seq<char>> {
    match o {
        Some(s) => Some(s@),
        None => None,
    }
}

/// A list of string pairs taken by their characters.
pub open spec fn pairs_view(v: Seq<(String, String)>) -> Seq<(Seq<char>, Seq<char>)> {
    v.map_values(|p: (String, String)| (p.0@, p.1@))
}

/// How a portrait is shown: the file, the position (1 left, 2 centre,
/// 3 right) and the scale in percent.
pub struct ImageParams {
    pub filename: Option<String>,
    pub position: usize,
    pub scale: u32,
}

/// The plain-value model of [`ImageParams`].
pub struct ImageModel {
    pub filename: Option<Seq<char>>,
    pub position: usize,
    pub scale: u32,
}

impl View for ImageParams {
    type V = ImageModel;

    open spec fn view(&self) -> ImageModel {
        ImageModel { filename: opt_view(self.filename), position: self.position, scale: self.scale }
    }
}

/// One command of a scene.
#[allow(inconsistent_fields)]
pub enum DialogueCommand {
    /// A line of dialogue (with a speaker) or narration (without one).
    Text { speaker: Option<String>, text: String, voice: Option<String> },
    /// Shows a portrait, or clears it when the file name is absent.
    Image(ImageParams),
    /// Shows a background picture, or clears it.
    Background { filename: Option<String> },
    /// Starts background music.
    Music { filename: String },
    /// Stops the background music.
    MusicStop,
    /// Offers choices, each a label and the scene it leads to.
    Choose { options: Vec<(String, String)> },
    /// Jumps to a scene, optionally of another script file.
    Load { file: Option<String>, target: String },
    /// Ends the story.
    End,
    /// Asks the player for a value to keep in a variable.
    Input { prompt: String, var_name: String },
    /// Assigns a variable.
    SetVar { name: String, value: String },
    /// Jumps to a scene when a condition holds.
    If { condition: String, target: String },
}

/// The plain-value model of [`DialogueCommand`].
#[allow(inconsistent_fields)]
pub enum Command {
    Text { speaker: Option<Seq<char>>, text: Seq<char>, voice: Option<Seq<char>> },
    Image(ImageModel),
    Background { filename: Option<Seq<char>> },
    Music { filename: Seq<char> },
    MusicStop,
    Choose { options: Seq<(Seq<char>, Seq<char>)> },
    Load { file: Option<Seq<char>>, target: Seq<char> },
    End,
    Input { prompt: Seq<char>, var_name: Seq<char> },
    SetVar { name: Seq<char>, value: Seq<char> },
    If { condition: Seq<char>, target: Seq<char> },
}

impl View for DialogueCommand {
    type V = Command;

    open spec fn view(&self) -> Command {
        match self {
            DialogueCommand::Text { speaker, text, voice } => Command::Text {
                speaker: opt_view(*speaker),
                text: text@,
                voice: opt_view(*voice),
            },
            DialogueCommand::Image(p) => Command::Image(p@),
            DialogueCommand::Background { filename } => Command::Background {
                filename: opt_view(*filename),
            },
            DialogueCommand::Music { filename } => Command::Music { filename: filename@ },
            DialogueCommand::MusicStop => Command::MusicStop,
            DialogueCommand::Choose { options } => Command::Choose { options: pairs_view(options@) },
            DialogueCommand::Load { file, target } => Command::Load {
                file: opt_view(*file),
                target: target@,
            },
            DialogueCommand::End => Command::End,
            DialogueCommand::Input { prompt, var_name } => Command::Input {
                prompt: prompt@,
                var_name: var_name@,
            },
            DialogueCommand::SetVar { name, value } => Command::SetVar {
                name: name@,
                value: value@,
            },
            DialogueCommand::If { condition, target } => Command::If {
                condition: condition@,
                target: target@,
            },
        }
    }
}

/// A copy of an optional string.
pub fn copy_opt(o: &Option<String>) -> (r: Option<String>)
    ensures
        opt_view(r) == opt_view(*o),
        r == *o,
{
    match o {
        Some(s) => Some(s.clone()),
        None => None,
    }
}

/// A copy of a list of string pairs.
pub fn copy_pairs(v: &Vec<(String, String)>) -> (r: Vec<(String, String)>)
    ensures
        pairs_view(r@) == pairs_view(v@),
{
    let mut r: Vec<(String, String)> = Vec::new();
    let mut i: usize = 0;
    while i < v.len()
        invariant
            i <= v@.len(),
            pairs_view(r@) == pairs_view(v@.take(i as int)),
        decreases v@.len() - i,
    {
        let p = &v[i];
        let ghost old_r = r@;
        let a = p.0.clone();
        let b = p.1.clone();
        r.push((a, b));
        assert(v@.take(i + 1) =~= v@.take(i as int).push(v@[i as int]));
        assert(r@ =~= old_r.push((a, b)));
        assert(pairs_view(r@) =~= pairs_view(old_r).push((a@, b@)));
        assert(pairs_view(v@.take(i + 1)) =~= pairs_view(v@.take(i as int)).push((a@, b@)));
        i = i + 1;
    }
    assert(v@.take(v@.len() as int) =~= v@);
    r
}

impl ImageParams {
    /// A copy of these parameters.
    pub fn copy(&self) -> (r: ImageParams)
        ensures
            r@ == self@,
    {
        ImageParams { filename: copy_opt(&self.filename), position: self.position, scale: self.scale }
    }
}

impl DialogueCommand {
    /// A copy of this command.
    pub fn copy(&self) -> (r: DialogueCommand)
        ensures
            r@ == self@,
    {
        match self {
            DialogueCommand::Text { speaker, text, voice } => DialogueCommand::Text {
                speaker: copy_opt(speaker),
                text: text.clone(),
                voice: copy_opt(voice),
            },
            DialogueCommand::Image(p) => DialogueCommand::Image(p.copy()),
            DialogueCommand::Background { filename } => DialogueCommand::Background {
                filename: copy_opt(filename),
            },
            DialogueCommand::Music { filename } => DialogueCommand::Music {
                filename: filename.clone(),
            },
            DialogueCommand::MusicStop => DialogueCommand::MusicStop,
            DialogueCommand::Choose { options } => DialogueCommand::Choose {
                options: copy_pairs(options),
            },
            DialogueCommand::Load { file, target } => DialogueCommand::Load {
                file: copy_opt(file),
                target: target.clone(),
            },
            DialogueCommand::End => DialogueCommand::End,
            DialogueCommand::Input { prompt, var_name } => DialogueCommand::Input {
                prompt: prompt.clone(),
                var_name: var_name.clone(),
            },
            DialogueCommand::SetVar { name, value } => DialogueCommand::SetVar {
                name: name.clone(),
                value: value.clone(),
            },
            DialogueCommand::If { condition, target } => DialogueCommand::If {
                condition: condition.clone(),
                target: target.clone(),
            },
        }
    }
}

/// The commands of one scene, in order.
pub struct SceneData {
    pub commands: Vec<DialogueCommand>,
}

/// The plain-value model of a list of commands.
pub open spec fn commands_view(v: Seq<DialogueCommand>) -> Seq<Command> {
    v.map_values(|c: DialogueCommand| c@)
}

impl SceneData {
    /// A copy of this scene.
    pub fn copy(&self) -> (r: SceneData)
        ensures
            r@ == self@,
    {
        let mut v: Vec<DialogueCommand> = Vec::new();
        let mut i: usize = 0;
        while i < self.commands.len()
            invariant
                i <= self.commands@.len(),
                commands_view(v@) == commands_view(self.commands@.take(i as int)),
            decreases self.commands@.len() - i,
        {
            let c = self.commands[i].copy();
            let ghost old_v = v@;
            let ghost cv = c@;
            v.push(c);
            assert(commands_view(v@) =~= commands_view(old_v).push(cv));
            assert(self.commands@.take(i + 1) =~= self.commands@.take(i as int).push(self.commands@[i as int]));
            assert(commands_view(self.commands@.take(i + 1)) =~= commands_view(self.commands@.take(i as int)).push(cv));
            i = i + 1;
        }
        assert(self.commands@.take(self.commands@.len() as int) =~= self.commands@);
        SceneData { commands: v }
    }
}

impl View for SceneData {
    type V = Seq<Command>;

    open spec fn view(&self) -> Seq<Command> {
        commands_view(self.commands@)
    }
}

} // verus!
