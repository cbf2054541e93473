use aria::voices::{find_voice_by_name, gender_label, voice_line, VoiceGender, VoiceInfo};

fn voice(name: &str) -> VoiceInfo {
    VoiceInfo {
        id: format!("id-{}", name),
        display_name: name.to_string(),
        language: "en-US".to_string(),
        gender: "Female".to_string(),
    }
}

#[test]
fn first_voice_with_the_name() {
    let vs = vec![voice("Zira"), voice("David"), voice("Zira")];
    assert_eq!(find_voice_by_name(&vs, "Zira"), Some(0));
    assert_eq!(find_voice_by_name(&vs, "David"), Some(1));
    assert_eq!(find_voice_by_name(&vs, "Mark"), None);
    assert_eq!(find_voice_by_name(&vec![], "Mark"), None);
}

#[test]
fn gender_labels() {
    assert_eq!(gender_label(VoiceGender::Male), "Male");
    assert_eq!(gender_label(VoiceGender::Female), "Female");
    assert_eq!(gender_label(VoiceGender::Other), "Unknown");
}

#[test]
fn listing_line() {
    assert_eq!(voice_line(&voice("Zira")), "- Zira (en-US, Female)");
}
