use vstd::prelude::*;

verus! {

/// What a sound file in the audio folder is used for, told by its name.
#[derive(Debug, Clone, Copy, PartialEq, Eq, Structural, Hash)]
pub enum SoundKind {
    /// A footstep, played in turn while walking.
    Step,
    /// The looping ambience track.
    Ambience,
    /// A sound played by name.
    Named,
}

/// Whether `needle` occurs in `hay` as a contiguous run.
pub open spec fn contains_seq(hay: Seq<char>, needle: Seq<char>) -> bool {
    exists|i: int|
        0 <= i && i + needle.len() <= hay.len() && #[trigger] hay.subrange(i, i + needle.len())
            == needle
}

/// The kind of sound a file with stem `stem` holds: footsteps have "step" in
/// their name, the ambience track "amb", everything else is played by name.
pub open spec fn sound_kind(stem: Seq<char>) -> SoundKind {
    if contains_seq(stem, "step"@) {
        SoundKind::Step
    } else if contains_seq(stem, "amb"@) {
        SoundKind::Ambience
    } else {
        SoundKind::Named
    }
}

/// Whether an extension marks a file the sound loader reads.
pub open spec fn is_audio_extension_spec(ext: Option<Seq<char>>) -> bool {
    match ext {
        Some(e) => e == "wav"@ || e == "mp3"@,
        None => false,
    }
}

/// Whether `a` and `b` hold the same characters.
pub fn str_equal(a: &str, b: &str) -> (same: bool)
    ensures
        same == (a@ == b@),
{
    let n = a.unicode_len();
    let m = b.unicode_len();
    if n != m {
        return false;
    }
    let mut i: usize = 0;
    while i < n
        invariant
            i <= n,
            n == a@.len(),
            m == b@.len(),
            n == m,
            forall|j: int| 0 <= j < i ==> a@[j] == b@[j],
        decreases n - i,
    {
        if a.get_char(i) != b.get_char(i) {
            return false;
        }
        i = i + 1;
    }
    assert(a@ =~= b@);
    true
}

/// Whether `needle` occurs in `hay`.
pub fn str_contains(hay: &str, needle: &str) -> (found: bool)
    ensures
        found == contains_seq(hay@, needle@),
{
    let n = hay.unicode_len();
    let m = needle.unicode_len();
    if m > n {
        assert(!contains_seq(hay@, needle@));
        return false;
    }
    let mut start: usize = 0;
    while start <= n - m
        invariant
            m <= n,
            n == hay@.len(),
            m == needle@.len(),
            start <= n - m + 1,
            forall|i: int|
                0 <= i < start ==> #[trigger] hay@.subrange(i, i + needle@.len()) != needle@,
        decreases n - m + 1 - start,
    {
        let mut j: usize = 0;
        let mut matched = true;
        while j < m
            invariant
                j <= m,
                start + m <= n,
                n == hay@.len(),
                m == needle@.len(),
                matched == forall|k: int| 0 <= k < j ==> hay@[start + k] == needle@[k],
            decreases m - j,
        {
            if hay.get_char(start + j) != needle.get_char(j) {
                matched = false;
            }
            j = j + 1;
        }
        if matched {
            assert(hay@.subrange(start as int, start + needle@.len()) =~= needle@);
            return true;
        }
        assert(hay@.subrange(start as int, start + needle@.len()) != needle@) by {
            let k = choose|k: int| 0 <= k < m && hay@[start + k] != needle@[k];
            assert(hay@.subrange(start as int, start + needle@.len())[k] == hay@[start + k]);
        }
        start = start + 1;
    }
    false
}

/// The kind of sound a file named `stem` holds.
pub fn classify_sound(stem: &str) -> (kind: SoundKind)
    ensures
        kind == sound_kind(stem@),
{
    if str_contains(stem, "step") {
        SoundKind::Step
    } else if str_contains(stem, "amb") {
        SoundKind::Ambience
    } else {
        SoundKind::Named
    }
}

/// Any file whose name has "step" in it is a footstep, whatever surrounds
/// it; any file whose name has "amb" in it is a footstep or the ambience,
/// never a named sound; and a name is read as a named sound only when it
/// contains neither.
pub proof fn lemma_sound_names(before: Seq<char>, after: Seq<char>, stem: Seq<char>)
    ensures
        sound_kind(before + "step"@ + after) == SoundKind::Step,
        sound_kind(before + "amb"@ + after) != SoundKind::Named,
        sound_kind(stem) == SoundKind::Named ==> forall|i: int|
            0 <= i && i + 4 <= stem.len() ==> #[trigger] stem.subrange(i, i + 4) != "step"@,
{
    let s1 = before + "step"@ + after;
    assert(s1.subrange(before.len() as int, (before.len() + "step"@.len()) as int) =~= "step"@);
    let s2 = before + "amb"@ + after;
    assert(s2.subrange(before.len() as int, (before.len() + "amb"@.len()) as int) =~= "amb"@);
    if sound_kind(stem) == SoundKind::Named {
        reveal_strlit("step");
        assert forall|i: int| 0 <= i && i + 4 <= stem.len() implies #[trigger] stem.subrange(i, i + 4)
            != "step"@ by {
            if stem.subrange(i, i + 4) == "step"@ {
                assert(stem.subrange(i, i + "step"@.len()) == "step"@);
            }
        }
    }
}

/// The sound loader reads exactly the three-letter extensions w-a-v and
/// m-p-3, and nothing without an extension.
pub proof fn lemma_audio_extensions(e: Seq<char>)
    ensures
        is_audio_extension_spec(Some(e)) <==> (e.len() == 3 && ((e[0] == 'w' && e[1] == 'a' && e[2]
            == 'v') || (e[0] == 'm' && e[1] == 'p' && e[2] == '3'))),
        !is_audio_extension_spec(None),
{
    reveal_strlit("wav");
    reveal_strlit("mp3");
    if e.len() == 3 && e[0] == 'w' && e[1] == 'a' && e[2] == 'v' {
        assert(e =~= "wav"@);
    }
    if e.len() == 3 && e[0] == 'm' && e[1] == 'p' && e[2] == '3' {
        assert(e =~= "mp3"@);
    }
}

/// Whether a file with extension `ext` is read as a sound: "wav" and "mp3"
/// files are, files without an extension are not.
pub fn is_audio_extension(ext: Option<&str>) -> (audio: bool)
    ensures
        audio == is_audio_extension_spec(
            match ext {
                Some(e) => Some(e@),
                None => None,
            },
        ),
{
    match ext {
        Some(e) => str_equal(e, "wav") || str_equal(e, "mp3"),
        None => false,
    }
}

/// The positions in `track_names` of the tracks named `name`, in order: the
/// tracks that stopping `name` stops.
pub fn tracks_named(track_names: &Vec<&str>, name: &str) -> (found: Vec<usize>)
    ensures
        forall|i: int| 0 <= i < found@.len() ==> #[trigger] found@[i] < track_names@.len(),
        forall|i: int, j: int| 0 <= i < j < found@.len() ==> found@[i] < found@[j],
        forall|k: int|
            0 <= k < track_names@.len() ==> (track_names@[k]@ == name@ <==> found@.contains(
                k as usize,
            )),
{
    let mut found: Vec<usize> = Vec::new();
    let mut k: usize = 0;
    while k < track_names.len()
        invariant
            k <= track_names@.len(),
            forall|i: int| 0 <= i < found@.len() ==> #[trigger] found@[i] < k,
            forall|i: int, j: int| 0 <= i < j < found@.len() ==> found@[i] < found@[j],
            forall|t: int|
                0 <= t < k ==> (track_names@[t]@ == name@ <==> found@.contains(t as usize)),
        decreases track_names@.len() - k,
    {
        let ghost before = found@;
        if str_equal(track_names[k], name) {
            found.push(k);
        }
        proof {
            assert forall|t: int| 0 <= t < k + 1 implies (track_names@[t]@ == name@
                <==> found@.contains(t as usize)) by {
                if found@.contains(t as usize) {
                    let w = choose|w: int| 0 <= w < found@.len() && found@[w] == t as usize;
                    if w < before.len() {
                        assert(before[w] == t as usize);
                        assert(before.contains(t as usize));
                    }
                }
                if t < k && before.contains(t as usize) {
                    let w = choose|w: int| 0 <= w < before.len() && before[w] == t as usize;
                    assert(found@[w] == t as usize);
                }
                if t == k && track_names@[t]@ == name@ {
                    assert(found@[found@.len() - 1] == k);
                }
            }
        }
        k = k + 1;
    }
    found
}

/// Which footstep sound plays next: the walking sounds are played in turn.
#[derive(Debug, Clone, Copy, PartialEq, Eq, Structural)]
pub struct StepCycle {
    pub last_sound: usize,
}

impl StepCycle {
    /// A cycle that starts at the first footstep sound.
    pub fn new() -> (cycle: StepCycle)
        ensures
            cycle.last_sound == 0,
    {
        StepCycle { last_sound: 0 }
    }

    /// The position among `count` footstep sounds of the one to play now;
    /// the cycle moves on to the next.
    pub fn next_index(&mut self, count: usize) -> (index: usize)
        requires
            count > 0,
            old(self).last_sound < usize::MAX,
        ensures
            index == old(self).last_sound % count,
            index < count,
            final(self).last_sound == old(self).last_sound + 1,
    {
        let index = self.last_sound % count;
        self.last_sound = self.last_sound + 1;
        index
    }
}

} // verus!
