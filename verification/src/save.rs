//! Saved games: a player's progress, and the names of save files.

use std::collections::HashMap;
use vstd::prelude::*;

verus! {

/// Whether `char::is_alphanumeric` holds of a character: whether Unicode
/// classes it as a letter or a number.
pub uninterp spec fn is_alphanumeric(c: char) -> bool;

/// Calls `char::is_alphanumeric`, whose answer depends on the character alone;
/// the contract gives that answer its name.
#[verifier::external_body]
fn char_is_alphanumeric(c: char) -> (alphanumeric: bool)
    ensures
        alphanumeric == is_alphanumeric(c),
{
    c.is_alphanumeric()
}

/// Calls `String::push`, which appends one character to the string.
#[verifier::external_body]
fn push_char(text: &mut String, c: char)
    ensures
        final(text)@ == old(text)@.push(c),
{
    text.push(c)
}

/// The character that stands for `c` in a file name, given whether `c` is
/// alphanumeric: `c` itself if it is, or if it is `_` or `-`, else `_`.
pub open spec fn file_name_char_spec(c: char, alphanumeric: bool) -> char {
    if alphanumeric || c == '_' || c == '-' {
        c
    } else {
        '_'
    }
}

/// The character that stands for `c` in a file name, given whether `c` is
/// alphanumeric.
#[verifier::when_used_as_spec(file_name_char_spec)]
pub fn file_name_char(c: char, alphanumeric: bool) -> (safe: char)
    ensures
        safe == file_name_char_spec(c, alphanumeric),
{
    if alphanumeric || c == '_' || c == '-' {
        c
    } else {
        '_'
    }
}

/// The name of the save file of a player: the player's name with every
/// character that is not alphanumeric, `_` or `-` replaced by `_`, followed by
/// `.json`.
pub open spec fn save_file_name(player_name: Seq<char>) -> Seq<char> {
    Seq::new(player_name.len(), |i: int| file_name_char_spec(player_name[i], is_alphanumeric(player_name[i])))
        + ".json"@
}

/// Generates a safe file name from the player name.
pub fn filename(player_name: &str) -> (name: String)
    ensures
        name@ == save_file_name(player_name@),
{
    let mut name = String::new();
    let len = player_name.unicode_len();
    let mut i: usize = 0;
    while i < len
        invariant
            len == player_name@.len(),
            i <= len,
            name@ == Seq::new(
                i as nat,
                |j: int| file_name_char_spec(player_name@[j], is_alphanumeric(player_name@[j])),
            ),
        decreases len - i,
    {
        let c = player_name.get_char(i);
        let safe = file_name_char(c, char_is_alphanumeric(c));
        push_char(&mut name, safe);
        i = i + 1;
        assert(name@ =~= Seq::new(
            i as nat,
            |j: int| file_name_char_spec(player_name@[j], is_alphanumeric(player_name@[j])),
        ));
    }
    name.append(".json");
    name
}

/// Checks if a save file exists for the given player name, among the names of
/// the files in the save directory.
pub fn save_exists(player_name: &str, saved_files: &Vec<String>) -> (exists: bool)
    ensures
        exists == (exists|i: int|
            0 <= i < saved_files@.len() && (#[trigger] saved_files@[i])@ == save_file_name(player_name@)),
{
    let wanted = filename(player_name);
    let mut i: usize = 0;
    while i < saved_files.len()
        invariant
            i <= saved_files@.len(),
            wanted@ == save_file_name(player_name@),
            forall|j: int| 0 <= j < i ==> (#[trigger] saved_files@[j])@ != wanted@,
        decreases saved_files@.len() - i,
    {
        if saved_files[i] == wanted {
            return true;
        }
        i = i + 1;
    }
    false
}

/// A saved game with the player's progress.
pub struct SaveData {
    /// Player's chosen name.
    pub player_name: String,
    /// Highest level the player has unlocked (can play up to this level).
    pub highest_level_unlocked: usize,
    /// Best completion time for each level, in microseconds.
    pub level_times: HashMap<usize, u64>,
    /// When this save was first created, in seconds since the epoch.
    pub created_at: i64,
    /// When this save was last played, in seconds since the epoch.
    pub last_played: i64,
}

impl SaveData {
    /// Creates a new save for a new player at the time `now`: the first
    /// level is unlocked, and no level has a time.
    pub fn new(player_name: String, now: i64) -> (save: SaveData)
        ensures
            save.player_name@ == player_name@,
            save.highest_level_unlocked == 1,
            save.level_times@ == Map::<usize, u64>::empty(),
            save.created_at == now,
            save.last_played == now,
    {
        SaveData {
            player_name,
            highest_level_unlocked: 1,
            level_times: HashMap::new(),
            created_at: now,
            last_played: now,
        }
    }

    /// Whether `time` is a new best time for `level`: the first time for
    /// it, or a shorter one than the best so far.
    pub open spec fn is_new_best(&self, level: usize, time: u64) -> bool {
        !self.level_times@.contains_key(level) || time < self.level_times@[level]
    }

    /// Records a level completion at the time `now`, updating the best time
    /// if this is faster, and unlocking the next level if this was the
    /// highest. Returns true if this was a new best time.
    pub fn record_level_completion(&mut self, level: usize, time: u64, now: i64) -> (new_best: bool)
        requires
            level < usize::MAX,
        ensures
            new_best == old(self).is_new_best(level, time),
            final(self).last_played == now,
            final(self).created_at == old(self).created_at,
            final(self).player_name@ == old(self).player_name@,
            final(self).highest_level_unlocked == if level >= old(self).highest_level_unlocked {
                (level + 1) as usize
            } else {
                old(self).highest_level_unlocked
            },
            final(self).level_times@ == if new_best {
                old(self).level_times@.insert(level, time)
            } else {
                old(self).level_times@
            },
    {
        self.last_played = now;

        // Unlock next level if this is the highest completed.
        if level >= self.highest_level_unlocked {
            self.highest_level_unlocked = level + 1;
        }
        // Update best time if this is faster (or first completion).
        let is_new_best = match self.level_times.get(&level) {
            Some(best_time) => time < *best_time,
            None => true,
        };
        if is_new_best {
            self.level_times.insert(level, time);
        }
        is_new_best
    }

    /// Gets the best time for a level, if any.
    pub fn get_best_time(&self, level: usize) -> (best: Option<u64>)
        ensures
            best == if self.level_times@.contains_key(level) {
                Some(self.level_times@[level])
            } else {
                None
            },
    {
        match self.level_times.get(&level) {
            Some(best_time) => Some(*best_time),
            None => None,
        }
    }

    /// Whether this save was played later than `other`: the order in which
    /// saves are listed, the one played last first.
    pub fn played_later_than(&self, other: &SaveData) -> (later: bool)
        ensures
            later == (self.last_played > other.last_played),
    {
        self.last_played > other.last_played
    }

    /// Generates a safe file name from the player name.
    pub fn filename(&self) -> (name: String)
        ensures
            name@ == save_file_name(self.player_name@),
    {
        filename(self.player_name.as_str())
    }
}

/// The currently active save game.
pub struct CurrentSave(pub Option<SaveData>);

impl Default for CurrentSave {
    fn default() -> (current: CurrentSave)
        ensures
            current.0 is None,
    {
        CurrentSave(None)
    }
}

impl CurrentSave {
    /// Returns a reference to the current save data, if loaded.
    pub fn get(&self) -> (save: Option<&SaveData>)
        ensures
            save is Some <==> self.0 is Some,
            save matches Some(data) ==> *data == self.0->Some_0,
    {
        match &self.0 {
            Some(data) => Some(data),
            None => None,
        }
    }

    /// Returns a mutable reference to the current save data, if loaded.
    pub fn get_mut(&mut self) -> (save: Option<&mut SaveData>)
        ensures
            save is Some <==> old(self).0 is Some,
            save matches Some(data) ==> *data == old(self).0->Some_0 && final(self).0 == Some(*final(data)),
            save is None ==> final(self).0 is None,
    {
        match &mut self.0 {
            Some(data) => Some(data),
            None => None,
        }
    }

    /// Sets the current save data.
    pub fn set(&mut self, save: SaveData)
        ensures
            final(self).0 == Some(save),
    {
        self.0 = Some(save);
    }

    /// Clears the current save (e.g., when returning to main menu).
    pub fn clear(&mut self)
        ensures
            final(self).0 is None,
    {
        self.0 = None;
    }
}

} // verus!
