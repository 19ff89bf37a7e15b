//! Mods of the lazer client: a list of two-letter acronyms, some with
//! settings.

use vstd::prelude::*;
use vstd::string::{StrSliceExecFns, StringExecFns};

verus! {

/// The settings of a mod. A speed change is held as the bit pattern of its
/// IEEE 754 binary32 form.
#[derive(Debug, Clone, Copy, PartialEq, Eq)]
pub struct OsuModLazerSettings {
    pub speed_change: Option<u32>,
}

/// Single mod
#[derive(Debug, PartialEq)]
pub struct OsuModLazer {
    pub acronym: String,
    pub settings: Option<OsuModLazerSettings>,
}

/// Multiple mods
#[derive(Debug, PartialEq)]
pub struct OsuModsLazer {
    pub mods: Vec<OsuModLazer>,
}

/// The mathematical form of an [`OsuModLazer`].
pub struct OsuModLazerView {
    pub acronym: Seq<char>,
    pub settings: Option<OsuModLazerSettings>,
}

impl View for OsuModLazer {
    type V = OsuModLazerView;

    open spec fn view(&self) -> OsuModLazerView {
        OsuModLazerView { acronym: self.acronym@, settings: self.settings }
    }
}

impl View for OsuModsLazer {
    type V = Seq<OsuModLazerView>;

    open spec fn view(&self) -> Seq<OsuModLazerView> {
        Seq::new(self.mods@.len(), |i: int| self.mods@[i]@)
    }
}

/// The speed change of a mod, if its settings name one.
pub open spec fn speed_change_of(osu_mod: OsuModLazerView) -> Option<u32> {
    match osu_mod.settings {
        Some(settings) => settings.speed_change,
        None => None,
    }
}

/// The speed change of the first mod from position `from` on that has one.
pub open spec fn speed_change_from(mods: Seq<OsuModLazerView>, from: nat) -> Option<u32>
    decreases mods.len() - from,
{
    if from >= mods.len() {
        None
    } else if speed_change_of(mods[from as int]) is Some {
        speed_change_of(mods[from as int])
    } else {
        speed_change_from(mods, from + 1)
    }
}

/// Whether one of the mods goes by the acronym.
pub open spec fn has_acronym(mods: Seq<OsuModLazerView>, acronym: Seq<char>) -> bool {
    exists|i: int| 0 <= i < mods.len() && #[trigger] mods[i].acronym == acronym
}

/// How many acronyms a text holds: one for every two characters, and one more
/// for a character that is left over.
pub open spec fn acronym_count(text: Seq<char>) -> nat {
    ((text.len() + 1) / 2) as nat
}

/// The `k`-th acronym of a text: its characters from `2 * k` on, two of them,
/// or the one that is left.
pub open spec fn acronym_at(text: Seq<char>, k: int) -> Seq<char> {
    text.subrange(
        2 * k,
        if 2 * k + 2 <= text.len() {
            2 * k + 2
        } else {
            text.len() as int
        },
    )
}

/// The mods that a text of acronyms names, none of them with settings.
pub open spec fn mods_of(text: Seq<char>) -> Seq<OsuModLazerView> {
    Seq::new(
        acronym_count(text),
        |k: int| OsuModLazerView { acronym: acronym_at(text, k), settings: None },
    )
}

/// The acronyms of the first `count` mods, one after the other.
pub open spec fn joined(mods: Seq<OsuModLazerView>, count: nat) -> Seq<char>
    decreases count,
{
    if count == 0 {
        Seq::empty()
    } else {
        joined(mods, (count - 1) as nat) + mods[count - 1].acronym
    }
}

/// The mods that there are where none were chosen: the one that says so.
pub open spec fn no_mods() -> Seq<OsuModLazerView> {
    seq![OsuModLazerView { acronym: "NM"@, settings: None }]
}

/// The first `count` acronyms of a text, joined, are the text up to where the
/// last of them ends.
proof fn lemma_joined_prefix(text: Seq<char>, count: nat)
    requires
        count <= acronym_count(text),
    ensures
        joined(mods_of(text), count) == text.subrange(
            0,
            if 2 * count <= text.len() {
                2 * count as int
            } else {
                text.len() as int
            },
        ),
    decreases count,
{
    if count > 0 {
        lemma_joined_prefix(text, (count - 1) as nat);
        assert(mods_of(text)[count - 1].acronym == acronym_at(text, count - 1));
        assert(joined(mods_of(text), count) =~= text.subrange(
            0,
            if 2 * count <= text.len() {
                2 * count as int
            } else {
                text.len() as int
            },
        ));
    } else {
        assert(joined(mods_of(text), 0) =~= text.subrange(0, 0));
    }
}

/// Mods that were read from a text are written as that text.
pub proof fn lemma_mods_round_trip(text: Seq<char>)
    ensures
        joined(mods_of(text), mods_of(text).len()) == text,
{
    lemma_joined_prefix(text, acronym_count(text));
    assert(text.subrange(0, text.len() as int) =~= text);
}

impl OsuModLazer {
    /// The mod as text: its acronym.
    pub fn to_string(&self) -> (text: String)
        ensures
            text@ == self@.acronym,
    {
        self.acronym.clone()
    }
}

impl OsuModsLazer {
    /// The speed change of the first mod that has one.
    pub fn speed_changes(&self) -> (r: Option<u32>)
        ensures
            r == speed_change_from(self@, 0),
    {
        let mut i: usize = 0;
        while i < self.mods.len()
            invariant
                i <= self.mods.len(),
                speed_change_from(self@, 0) == speed_change_from(self@, i as nat),
            decreases self.mods.len() - i,
        {
            assert(self@[i as int] == self.mods@[i as int]@);
            if let Some(settings) = &self.mods[i].settings {
                if let Some(speed_change) = settings.speed_change {
                    return Some(speed_change);
                }
            }
            i = i + 1;
        }
        None
    }

    /// Whether one of the mods goes by the acronym.
    pub fn contains(&self, acronym: &str) -> (r: bool)
        ensures
            r == has_acronym(self@, acronym@),
    {
        let wanted = acronym.to_owned();
        let mut i: usize = 0;
        while i < self.mods.len()
            invariant
                i <= self.mods.len(),
                wanted@ == acronym@,
                forall|j: int| 0 <= j < i ==> self@[j].acronym != acronym@,
            decreases self.mods.len() - i,
        {
            assert(self@[i as int] == self.mods@[i as int]@);
            if self.mods[i].acronym == wanted {
                assert(self@[i as int].acronym == acronym@);
                return true;
            }
            i = i + 1;
        }
        false
    }

    /// The mods that a text of acronyms names: every two characters are one
    /// mod, and a character that is left over is one more.
    pub fn from_str(s: &str) -> (r: OsuModsLazer)
        ensures
            r@ == mods_of(s@),
    {
        let len = s.unicode_len();
        let mut mods: Vec<OsuModLazer> = Vec::new();
        let mut from: usize = 0;
        while from < len
            invariant
                len == s@.len(),
                from <= len,
                from % 2 == 0 || from == len,
                mods.len() == (from + 1) / 2,
                forall|k: int|
                    0 <= k < mods.len() ==> mods@[k]@ == (OsuModLazerView {
                        acronym: acronym_at(s@, k),
                        settings: None,
                    }),
            decreases len - from,
        {
            let to: usize = if len - from >= 2 {
                from + 2
            } else {
                len
            };
            let chunk = s.substring_char(from, to).to_owned();
            mods.push(OsuModLazer { acronym: chunk, settings: None });
            from = to;
        }
        let r = OsuModsLazer { mods };
        assert(r@ =~= mods_of(s@));
        r
    }

    /// The mods as text: their acronyms, one after the other.
    pub fn to_string(&self) -> (text: String)
        ensures
            text@ == joined(self@, self@.len()),
    {
        let mut text = String::new();
        let mut i: usize = 0;
        while i < self.mods.len()
            invariant
                i <= self.mods.len(),
                text@ == joined(self@, i as nat),
            decreases self.mods.len() - i,
        {
            assert(self@[i as int] == self.mods@[i as int]@);
            text.append(self.mods[i].acronym.as_str());
            i = i + 1;
        }
        text
    }
}

impl Default for OsuModsLazer {
    fn default() -> (r: OsuModsLazer)
        ensures
            r@ == no_mods(),
    {
        let mut mods: Vec<OsuModLazer> = Vec::new();
        mods.push(OsuModLazer { acronym: "NM".to_owned(), settings: None });
        let r = OsuModsLazer { mods };
        assert(r@ =~= no_mods());
        r
    }
}

} // verus!
