use vstd::prelude::*;

verus! {

/// An installed voice.
#[derive(Clone, Debug, PartialEq, Eq)]
pub struct VoiceInfo {
    pub id: String,
    pub display_name: String,
    pub language: String,
    pub gender: String,
}

/// A voice's gender as the engine reports it.
#[derive(PartialEq, Eq, Structural, Clone, Copy, Debug)]
pub enum VoiceGender {
    Male,
    Female,
    Other,
}

pub open spec fn gender_text(g: VoiceGender) -> Seq<char> {
    match g {
        VoiceGender::Male => "Male"@,
        VoiceGender::Female => "Female"@,
        VoiceGender::Other => "Unknown"@,
    }
}

/// The label a voice listing shows for a gender.
pub fn gender_label(g: VoiceGender) -> (r: String)
    ensures
        r@ == gender_text(g),
{
    match g {
        VoiceGender::Male => String::from_str("Male"),
        VoiceGender::Female => String::from_str("Female"),
        VoiceGender::Other => String::from_str("Unknown"),
    }
}

/// The first voice whose display name is `name`.
pub fn find_voice_by_name(voices: &Vec<VoiceInfo>, name: &str) -> (r: Option<usize>)
    ensures
        r matches Some(i) ==> i < voices@.len() && voices@[i as int].display_name@ == name@
            && forall|k: int| 0 <= k < i ==> voices@[k].display_name@ != name@,
        r is None ==> forall|k: int| 0 <= k < voices@.len() ==> voices@[k].display_name@ != name@,
{
    let wanted = String::from_str(name);
    let mut i: usize = 0;
    while i < voices.len()
        invariant
            i <= voices.len(),
            wanted@ == name@,
            forall|k: int| 0 <= k < i ==> voices@[k].display_name@ != name@,
        decreases voices.len() - i,
    {
        if voices[i].display_name == wanted {
            return Some(i);
        }
        i += 1;
    }
    None
}

/// One line of a voice listing: `- <name> (<language>, <gender>)`.
pub fn voice_line(v: &VoiceInfo) -> (r: String)
    ensures
        r@ == "- "@ + v.display_name@ + " ("@ + v.language@ + ", "@ + v.gender@ + ")"@,
{
    let mut s = String::from_str("- ");
    s.append(v.display_name.as_str());
    s.append(" (");
    s.append(v.language.as_str());
    s.append(", ");
    s.append(v.gender.as_str());
    s.append(")");
    s
}

} // verus!
