//! The entry points that the native window calls before the user interface runs.

use crate::message::Platform;
use vstd::prelude::*;
use vstd::utf8::encode_utf8;

verus! {

/// What becomes of the program after its start.
#[derive(Debug, PartialEq, Eq, Clone, Copy, Structural)]
pub enum CoreMain {
    /// The user interface runs.
    Run,
    /// The window is told that there is none.
    Stop,
    /// The process ends at once.
    Exit,
}

/// What becomes of the program. `wanted` says whether its start asks for a user interface; on a
/// phone there is no such start.
pub fn rustdesk_core_main(platform: Platform, wanted: bool) -> (next: CoreMain)
    ensures
        next == if platform.mobile() {
            CoreMain::Stop
        } else if wanted {
            CoreMain::Run
        } else if platform == Platform::MacOs {
            CoreMain::Exit
        } else {
            CoreMain::Stop
        },
{
    if platform.is_mobile() {
        return CoreMain::Stop;
    }
    if wanted {
        return CoreMain::Run;
    }
    match platform {
        Platform::MacOs => CoreMain::Exit,
        _ => CoreMain::Stop,
    }
}

/// The bytes of a text as C writes them: with a zero at the end.
pub open spec fn c_string(text: Seq<char>) -> Seq<u8> {
    encode_utf8(text).push(0)
}

/// Whether C can hold a text: a zero would end it too early.
pub open spec fn fits_c(text: Seq<char>) -> bool {
    !encode_utf8(text).contains(0)
}

fn c_string_of(text: &str) -> (bytes: Option<Vec<u8>>)
    ensures
        match bytes {
            Some(b) => fits_c(text@) && b@ == c_string(text@),
            None => !fits_c(text@),
        },
{
    let source = text.as_bytes();
    let mut bytes: Vec<u8> = Vec::new();
    let mut i: usize = 0;
    while i < source.len()
        invariant
            i <= source@.len(),
            source@ == encode_utf8(text@),
            bytes@ == source@.take(i as int),
            forall|j: int| 0 <= j < i ==> source@[j] != 0,
        decreases source@.len() - i,
    {
        if source[i] == 0 {
            assert(encode_utf8(text@)[i as int] == 0);
            return None;
        }
        bytes.push(source[i]);
        assert(source@.take(i + 1) =~= source@.take(i as int).push(source@[i as int]));
        i += 1;
    }
    assert(source@.take(source@.len() as int) =~= source@);
    bytes.push(0);
    Some(bytes)
}

/// The arguments as C takes them; nothing where C cannot hold one of them.
pub fn rust_args_to_c_args(args: Vec<String>) -> (out: Option<Vec<Vec<u8>>>)
    ensures
        match out {
            Some(list) => {
                &&& list@.len() == args@.len()
                &&& forall|i: int|
                    0 <= i < args@.len() ==> fits_c((#[trigger] args@[i])@) && list@[i]@
                        == c_string(args@[i]@)
            },
            None => exists|i: int| 0 <= i < args@.len() && !fits_c((#[trigger] args@[i])@),
        },
{
    let mut list: Vec<Vec<u8>> = Vec::new();
    let mut i: usize = 0;
    while i < args.len()
        invariant
            i <= args@.len(),
            list@.len() == i,
            forall|j: int|
                0 <= j < i ==> fits_c((#[trigger] args@[j])@) && list@[j]@ == c_string(args@[j]@),
        decreases args@.len() - i,
    {
        match c_string_of(args[i].as_str()) {
            Some(bytes) => list.push(bytes),
            None => {
                assert(!fits_c(args@[i as int]@));
                return None;
            },
        }
        i += 1;
    }
    Some(list)
}

/// The arguments for the window where the start of the program asks for one.
pub fn rustdesk_core_main_args(args: Option<Vec<String>>) -> (out: Option<Vec<Vec<u8>>>)
    ensures
        match (args, out) {
            (Some(args), Some(list)) => {
                &&& list@.len() == args@.len()
                &&& forall|i: int|
                    0 <= i < args@.len() ==> fits_c((#[trigger] args@[i])@) && list@[i]@
                        == c_string(args@[i]@)
            },
            (Some(args), None) => exists|i: int|
                0 <= i < args@.len() && !fits_c((#[trigger] args@[i])@),
            (None, Some(_)) => false,
            (None, None) => true,
        },
{
    match args {
        Some(args) => rust_args_to_c_args(args),
        None => None,
    }
}

/// Writes the name of the program to a buffer that holds `length` units: 0 where it fits with room
/// to spare, else -1, and nothing is written.
pub fn get_rustdesk_app_name(name: &Vec<u16>, buffer: &mut Vec<u16>, length: i32) -> (status: i32)
    requires
        name@.len() <= i32::MAX,
        length <= old(buffer)@.len(),
    ensures
        if length > name@.len() {
            status == 0 && final(buffer)@ == name@ + old(buffer)@.skip(name@.len() as int)
        } else {
            status == -1 && final(buffer)@ == old(buffer)@
        },
{
    if length > name.len() as i32 {
        let mut i: usize = 0;
        while i < name.len()
            invariant
                i <= name@.len(),
                name@.len() < old(buffer)@.len(),
                buffer@.len() == old(buffer)@.len(),
                forall|j: int| 0 <= j < i ==> buffer@[j] == name@[j],
                forall|j: int| i <= j < buffer@.len() ==> buffer@[j] == old(buffer)@[j],
            decreases name@.len() - i,
        {
            buffer[i] = name[i];
            i += 1;
        }
        assert(buffer@ =~= name@ + old(buffer)@.skip(name@.len() as int));
        return 0;
    }
    -1
}

/// What is known of the place of a plugin.
pub enum PluginPlace {
    /// The path of the program is not known, and why.
    UnknownProgram(String),
    /// The path of the program names no directory.
    NoDirectory(String),
    /// The plugin would be beside the program; the flag says whether it is there.
    BesideProgram(bool),
}

/// Why a plugin cannot be loaded.
#[derive(Debug, PartialEq, Eq, Clone, Copy, Structural)]
pub enum PluginError {
    NotFound,
    Other,
}

/// The message for a plugin that is not there.
pub open spec fn not_found_text(dll_name: Seq<char>) -> Seq<char> {
    dll_name + " not found"@
}

/// The message for a program whose path names no directory.
pub open spec fn no_directory_text(exe_file: Seq<char>) -> Seq<char> {
    "Invalid exe parent for "@ + exe_file
}

/// Whether the plugin beside the program may be loaded; else why not, with a message.
pub fn load_plugin_in_app_path(dll_name: &str, place: PluginPlace) -> (load: Result<
    (),
    (PluginError, String),
>)
    ensures
        match (place, load) {
            (PluginPlace::BesideProgram(there), Ok(_)) => there,
            (PluginPlace::BesideProgram(there), Err(e)) => !there && e.0 == PluginError::NotFound
                && e.1@ == not_found_text(dll_name@),
            (PluginPlace::NoDirectory(exe_file), Err(e)) => e.0 == PluginError::Other && e.1@
                == no_directory_text(exe_file@),
            (PluginPlace::UnknownProgram(why), Err(e)) => e.0 == PluginError::Other && e.1@
                == why@,
            _ => false,
        },
{
    match place {
        PluginPlace::BesideProgram(there) => {
            if there {
                return Ok(());
            }
            let mut message = dll_name.to_owned();
            message.append(" not found");
            Err((PluginError::NotFound, message))
        },
        PluginPlace::NoDirectory(exe_file) => {
            let mut message = "Invalid exe parent for ".to_owned();
            message.append(exe_file.as_str());
            Err((PluginError::Other, message))
        },
        PluginPlace::UnknownProgram(why) => Err((PluginError::Other, why)),
    }
}

/// A text as C writes it holds the bytes of the text, in their order, and one zero more, at the end.
pub proof fn lemma_c_string(text: Seq<char>)
    ensures
        c_string(text).len() == encode_utf8(text).len() + 1,
        c_string(text).drop_last() == encode_utf8(text),
        c_string(text).last() == 0,
        fits_c(text) <==> (forall|i: int|
            0 <= i < c_string(text).len() - 1 ==> (#[trigger] c_string(text)[i]) != 0),
{
    let bytes = encode_utf8(text);
    assert(c_string(text).drop_last() =~= bytes);
    assert(forall|i: int| 0 <= i < bytes.len() ==> c_string(text)[i] == bytes[i]);
    if !fits_c(text) {
        let i = choose|i: int| 0 <= i < bytes.len() && bytes[i] == 0;
        assert(c_string(text)[i] == 0);
    }
    if exists|i: int| 0 <= i < c_string(text).len() - 1 && c_string(text)[i] == 0 {
        let i = choose|i: int| 0 <= i < c_string(text).len() - 1 && c_string(text)[i] == 0;
        assert(bytes[i] == 0);
    }
}

/// The messages name the plugin that is missing and the program whose path is odd.
pub proof fn lemma_plugin_messages(dll_name: Seq<char>, exe_file: Seq<char>)
    ensures
        not_found_text(dll_name).take(dll_name.len() as int) == dll_name,
        not_found_text(dll_name).skip(dll_name.len() as int) == " not found"@,
        no_directory_text(exe_file).skip("Invalid exe parent for "@.len() as int) == exe_file,
        no_directory_text(exe_file).take("Invalid exe parent for "@.len() as int)
            == "Invalid exe parent for "@,
{
    assert(not_found_text(dll_name).take(dll_name.len() as int) =~= dll_name);
    assert(not_found_text(dll_name).skip(dll_name.len() as int) =~= " not found"@);
    assert(no_directory_text(exe_file).skip("Invalid exe parent for "@.len() as int) =~= exe_file);
    assert(no_directory_text(exe_file).take("Invalid exe parent for "@.len() as int)
        =~= "Invalid exe parent for "@);
}

}
