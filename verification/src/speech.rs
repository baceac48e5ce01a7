//! The platform-dependent speech command: which binary speaks the
//! message, and with which fixed arguments.

use vstd::prelude::*;

verus! {

/// The platforms a speech binary is known for.
#[derive(Clone, Copy, Debug, PartialEq, Eq, Structural)]
pub enum Platform {
    MacOs,
    Linux,
    Windows,
}

/// The speech command and its fixed leading arguments for a platform;
/// the message is appended as one further argument by the caller.
pub fn get_speak_command(platform: Platform) -> (r: (String, Vec<String>))
    ensures
        platform is MacOs ==> r.0@ == "say"@ && r.1@.len() == 0,
        platform is Linux ==> r.0@ == "spd-say"@ && r.1@.len() == 0,
        platform is Windows ==> r.0@ == "powershell"@ && r.1@.len() == 2 && r.1@[0]@
            == "-Command"@ && r.1@[1]@
            == "Add-Type -AssemblyName System.speech; $speak = New-Object System.Speech.Synthesis.SpeechSynthesizer; $speak.Speak('"@,
{
    match platform {
        Platform::MacOs => (String::from_str("say"), Vec::new()),
        Platform::Linux => (String::from_str("spd-say"), Vec::new()),
        Platform::Windows => {
            let mut args: Vec<String> = Vec::new();
            args.push(String::from_str("-Command"));
            args.push(
                String::from_str(
                    "Add-Type -AssemblyName System.speech; $speak = New-Object System.Speech.Synthesis.SpeechSynthesizer; $speak.Speak('",
                ),
            );
            (String::from_str("powershell"), args)
        },
    }
}

} // verus!
