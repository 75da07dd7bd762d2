//! Verified core of a musical instrument tuner: scale arithmetic, the
//! frequency-locking state machine, the sample-stream bookkeeping of the
//! analysis pipeline, and the text the terminal and web frontends emit.

pub mod audio;
pub mod config;
pub mod note;
pub mod page;
pub mod scale;
pub mod signal;
pub mod stream;
pub mod text;
pub mod tui;
pub mod web;
pub mod window;

use vstd::prelude::*;

verus! {

/// Advice for when audio capture fails to start on Android: there a refused
/// microphone permission surfaces as a bare AAudio error that says nothing
/// about permissions, so the cause has to be spelled out.
pub const ANDROID_AUDIO_HINT: &'static str = "hint: on Android/Termux this is almost always the microphone permission.\n\n  1. Check that the Termux:API add-on app is installed. It declares\n     RECORD_AUDIO and shares Termux's UID, which is what makes the\n     permission grantable at all.\n  2. Grant it:  Settings > Apps > Termux > Permissions > Microphone\n     (or, over adb:  pm grant com.termux android.permission.RECORD_AUDIO)";

/// Advice to print when audio capture fails to start, or `None` where the
/// platform offers none: only Android has some.
pub fn audio_start_hint(target_is_android: bool) -> (hint: Option<&'static str>)
    ensures
        hint == (if target_is_android { Some(ANDROID_AUDIO_HINT) } else { None }),
{
    if target_is_android {
        Some(ANDROID_AUDIO_HINT)
    } else {
        None
    }
}

} // verus!
