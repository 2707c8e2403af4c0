//! Saved games: what a save slot holds and which slots exist.
use vstd::prelude::*;
use crate::engine::{AppState, StateModel};
use crate::script::{ImageModel, ImageParams, opt_view, pairs_view};
use crate::engine::opt_image;

verus! {

/// The number of save slots; they are numbered from 1.
pub const MAX_SLOTS: usize = 10;

/// What a save slot holds.
pub struct SaveData {
    pub state: AppState,
    pub menu_selected: usize,
    pub variables: Vec<(String, String)>,
    pub current_image: Option<String>,
    pub timestamp: String,
    pub current_file: Option<String>,
    pub background: Option<String>,
    pub bgm: Option<String>,
    pub image_params: Option<ImageParams>,
}

/// The plain-value model of [`SaveData`].
pub struct SaveModel {
    pub state: StateModel,
    pub menu_selected: usize,
    pub variables: Seq<(Seq<char>, Seq<char>)>,
    pub current_image: Option<Seq<char>>,
    pub timestamp: Seq<char>,
    pub current_file: Option<Seq<char>>,
    pub background: Option<Seq<char>>,
    pub bgm: Option<Seq<char>>,
    pub image_params: Option<ImageModel>,
}

impl View for SaveData {
    type V = SaveModel;

    open spec fn view(&self) -> SaveModel {
        SaveModel {
            state: self.state@,
            menu_selected: self.menu_selected,
            variables: pairs_view(self.variables@),
            current_image: opt_view(self.current_image),
            timestamp: self.timestamp@,
            current_file: opt_view(self.current_file),
            background: opt_view(self.background),
            bgm: opt_view(self.bgm),
            image_params: opt_image(self.image_params),
        }
    }
}

/// An ASCII decimal digit.
pub open spec fn ascii_digit(c: char) -> bool {
    '0' <= c && c <= '9'
}

/// A date and time written `YYYY-MM-DD HH:MM:SS`: a year of at least four
/// digits (with a sign where it lies outside 0 to 9999), then two digits
/// each for month, day, hour, minute and second.
pub open spec fn clock_text(t: Seq<char>) -> bool {
    let n = t.len() as int;
    &&& n >= 19
    &&& (ascii_digit(t[0]) || t[0] == '+' || t[0] == '-')
    &&& forall|i: int| 1 <= i < n - 15 ==> ascii_digit(#[trigger] t[i])
    &&& t[n - 15] == '-'
    &&& t[n - 12] == '-'
    &&& t[n - 9] == ' '
    &&& t[n - 6] == ':'
    &&& t[n - 3] == ':'
    &&& ascii_digit(t[n - 14]) && ascii_digit(t[n - 13])
    &&& ascii_digit(t[n - 11]) && ascii_digit(t[n - 10])
    &&& ascii_digit(t[n - 8]) && ascii_digit(t[n - 7])
    &&& ascii_digit(t[n - 5]) && ascii_digit(t[n - 4])
    &&& ascii_digit(t[n - 2]) && ascii_digit(t[n - 1])
}

/// The local date and time, from chrono's `Local::now` formatted with
/// `%Y-%m-%d %H:%M:%S`. Which time it is depends on the clock and the time
/// zone and is not stated; its shape is: chrono writes the year with at
/// least four digits (signed outside 0 to 9999) and the other fields with
/// two digits each.
#[verifier::external_body]
fn local_timestamp() -> (t: String)
    ensures
        clock_text(t@),
{
    chrono::Local::now().format("%Y-%m-%d %H:%M:%S").to_string()
}

/// Whether `slot` is one of the slots 1 to [`MAX_SLOTS`].
pub open spec fn valid_slot(slot: usize) -> bool {
    1 <= slot <= MAX_SLOTS
}

impl SaveData {
    /// A save taken at the given time.
    pub fn new_at(
        state: &AppState,
        menu_selected: usize,
        variables: Vec<(String, String)>,
        current_file: Option<String>,
        background: Option<String>,
        bgm: Option<String>,
        image_params: Option<ImageParams>,
        timestamp: String,
    ) -> (r: SaveData)
        ensures
            r@ == (SaveModel {
                state: state@,
                menu_selected,
                variables: pairs_view(variables@),
                current_image: match opt_image(image_params) {
                    Some(p) => p.filename,
                    None => None,
                },
                timestamp: timestamp@,
                current_file: opt_view(current_file),
                background: opt_view(background),
                bgm: opt_view(bgm),
                image_params: opt_image(image_params),
            }),
    {
        let current_image = match &image_params {
            Some(p) => crate::script::copy_opt(&p.filename),
            None => None,
        };
        SaveData {
            state: state.copy(),
            menu_selected,
            variables,
            current_image,
            timestamp,
            current_file,
            background,
            bgm,
            image_params,
        }
    }

    /// A save taken now; its time stamp is the local time.
    pub fn new(
        state: &AppState,
        menu_selected: usize,
        variables: &crate::variables::Variables,
        current_file: Option<String>,
        background: Option<String>,
        bgm: Option<String>,
        image_params: Option<ImageParams>,
    ) -> (r: SaveData)
        ensures
            r@.state == state@,
            r@.menu_selected == menu_selected,
            r@.variables == variables.pairs(),
            r@.current_image == match opt_image(image_params) {
                Some(p) => p.filename,
                None => None,
            },
            r@.current_file == opt_view(current_file),
            r@.background == opt_view(background),
            r@.bgm == opt_view(bgm),
            r@.image_params == opt_image(image_params),
            clock_text(r@.timestamp),
    {
        let vars = variables.serialize();
        Self::new_at(state, menu_selected, vars, current_file, background, bgm, image_params, local_timestamp())
    }

    /// Whether `slot` is a slot number that can be saved to and loaded from.
    pub fn slot_in_range(slot: usize) -> (r: bool)
        ensures
            r == valid_slot(slot),
    {
        slot != 0 && slot <= MAX_SLOTS
    }

    /// Whether a save exists in `slot`, given which of the slots 1 to
    /// [`MAX_SLOTS`] have a file (`on_disk[i]` for slot `i + 1`).
    pub fn slot_exists(slot: usize, on_disk: &Vec<bool>) -> (r: bool)
        requires
            on_disk@.len() == MAX_SLOTS,
        ensures
            r == (valid_slot(slot) && on_disk@[slot - 1]),
    {
        if slot == 0 || slot > MAX_SLOTS {
            return false;
        }
        on_disk[slot - 1]
    }

    /// The file name of a slot: `save/slot<n>.json`.
    pub fn slot_path(slot: usize) -> (r: String)
        ensures
            r@ == "save/slot"@ + crate::text::decimal(slot as nat) + ".json"@,
    {
        let d = crate::text::decimal_chars(slot as u64);
        crate::text::join3("save/slot", d.as_slice(), ".json")
    }

    /// The message for a slot number out of range.
    pub fn invalid_slot_message(slot: usize) -> (r: String)
        ensures
            r@ == "存档槽位无效: "@ + crate::text::decimal(slot as nat),
    {
        let d = crate::text::decimal_chars(slot as u64);
        let r = crate::text::join3("存档槽位无效: ", d.as_slice(), "");
        assert(r@ =~= "存档槽位无效: "@ + crate::text::decimal(slot as nat)) by {
            reveal_strlit("");
        }
        r
    }
}

} // verus!
