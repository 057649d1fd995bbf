//! Which peers get what of the clipboard.

use crate::message::ConnType;
use crate::session::{FlutterSessionView, PeerKeyView, Sessions};
use vstd::prelude::*;

verus! {

/// What a connection wants of the clipboard.
#[derive(Debug, PartialEq, Eq, Clone, Copy, Structural)]
pub struct ClipboardNeeds {
    pub text_required: bool,
    pub file_required: bool,
    /// Whether the version of the peer takes files.
    pub file_supported: bool,
    /// Whether the peer cannot take several formats at once, and there is a message with one.
    pub single_format: bool,
}

/// A peer to be controlled, by its connection.
pub open spec fn controls(peer: (PeerKeyView, FlutterSessionView)) -> bool {
    peer.1.lc.conn_type == ConnType::DEFAULT_CONN
}

/// Whether a connection that controls its peer wants texts of the clipboard. `needs` says of each
/// connection what it wants.
pub fn update_text_clipboard_required(sessions: &Sessions, needs: &Vec<ClipboardNeeds>) -> (required:
    bool)
    requires
        needs@.len() == sessions@.peers.len(),
    ensures
        required == exists|i: int|
            0 <= i < needs@.len() && controls(sessions@.peers[i]) && (#[trigger] needs@[i]).text_required,
{
    let mut i: usize = 0;
    while i < needs.len()
        invariant
            i <= needs@.len(),
            needs@.len() == sessions@.peers.len(),
            forall|j: int|
                0 <= j < i ==> !(controls(sessions@.peers[j])
                    && (#[trigger] needs@[j]).text_required),
        decreases needs@.len() - i,
    {
        if sessions.peers.value_at(i).is_default() && needs[i].text_required {
            assert(needs@[i as int].text_required);
            return true;
        }
        i += 1;
    }
    false
}

/// Whether a connection that controls its peer wants files of the clipboard. `needs` says of each
/// connection what it wants.
pub fn update_file_clipboard_required(sessions: &Sessions, needs: &Vec<ClipboardNeeds>) -> (required:
    bool)
    requires
        needs@.len() == sessions@.peers.len(),
    ensures
        required == exists|i: int|
            0 <= i < needs@.len() && controls(sessions@.peers[i]) && (#[trigger] needs@[i]).file_required,
{
    let mut i: usize = 0;
    while i < needs.len()
        invariant
            i <= needs@.len(),
            needs@.len() == sessions@.peers.len(),
            forall|j: int|
                0 <= j < i ==> !(controls(sessions@.peers[j])
                    && (#[trigger] needs@[j]).file_required),
        decreases needs@.len() - i,
    {
        if sessions.peers.value_at(i).is_default() && needs[i].file_required {
            assert(needs@[i as int].file_required);
            return true;
        }
        i += 1;
    }
    false
}

/// What a peer gets of the clipboard.
#[derive(Debug, PartialEq, Eq, Clone, Copy, Structural)]
pub enum ClipboardSend {
    Nothing,
    /// The message as it is.
    Whole,
    /// The message with one format.
    SingleFormat,
}

/// What a peer gets of the clipboard. `files` says whether the message names files and the program
/// copies files; `several` whether the message holds several formats.
pub open spec fn clipboard_send(
    conn_type: ConnType,
    needs: ClipboardNeeds,
    files: bool,
    several: bool,
) -> ClipboardSend {
    if conn_type != ConnType::DEFAULT_CONN {
        ClipboardSend::Nothing
    } else if files {
        if needs.file_supported && needs.file_required {
            ClipboardSend::Whole
        } else {
            ClipboardSend::Nothing
        }
    } else if !needs.text_required {
        ClipboardSend::Nothing
    } else if several && needs.single_format {
        ClipboardSend::SingleFormat
    } else {
        ClipboardSend::Whole
    }
}

/// What each peer gets of the clipboard, in the order of the connections. `copies_files` says
/// whether the program copies files through the clipboard, `is_file` whether the message names
/// files, `several` whether it holds several formats.
pub fn send_clipboard_msg(
    sessions: &Sessions,
    needs: &Vec<ClipboardNeeds>,
    copies_files: bool,
    is_file: bool,
    several: bool,
) -> (sends: Vec<ClipboardSend>)
    requires
        needs@.len() == sessions@.peers.len(),
    ensures
        sends@.len() == needs@.len(),
        forall|i: int|
            0 <= i < sends@.len() ==> (#[trigger] sends@[i]) == clipboard_send(
                sessions@.peers[i].1.lc.conn_type,
                needs@[i],
                copies_files && is_file,
                several,
            ),
{
    let mut sends: Vec<ClipboardSend> = Vec::new();
    let mut i: usize = 0;
    while i < needs.len()
        invariant
            i <= needs@.len(),
            needs@.len() == sessions@.peers.len(),
            sends@.len() == i,
            forall|j: int|
                0 <= j < i ==> (#[trigger] sends@[j]) == clipboard_send(
                    sessions@.peers[j].1.lc.conn_type,
                    needs@[j],
                    copies_files && is_file,
                    several,
                ),
        decreases needs@.len() - i,
    {
        let wants = needs[i];
        let send = if !sessions.peers.value_at(i).is_default() {
            ClipboardSend::Nothing
        } else if copies_files && is_file {
            if wants.file_supported && wants.file_required {
                ClipboardSend::Whole
            } else {
                ClipboardSend::Nothing
            }
        } else if !wants.text_required {
            ClipboardSend::Nothing
        } else if several && wants.single_format {
            ClipboardSend::SingleFormat
        } else {
            ClipboardSend::Whole
        };
        sends.push(send);
        i += 1;
    }
    sends
}

/// What a peer gets of the clipboard. Only peers that are controlled get anything. Files go to those
/// that want files and whose version takes them, and are never cut to one format. Anything else goes
/// to those that want texts; of several formats, a peer that takes only one gets one.
pub proof fn lemma_clipboard_send(
    conn_type: ConnType,
    needs: ClipboardNeeds,
    files: bool,
    several: bool,
)
    ensures
        conn_type != ConnType::DEFAULT_CONN ==> clipboard_send(conn_type, needs, files, several)
            == ClipboardSend::Nothing,
        conn_type == ConnType::DEFAULT_CONN && files ==> (clipboard_send(
            conn_type,
            needs,
            files,
            several,
        ) == ClipboardSend::Whole <==> needs.file_required && needs.file_supported),
        files ==> clipboard_send(conn_type, needs, files, several) != ClipboardSend::SingleFormat,
        conn_type == ConnType::DEFAULT_CONN && !files ==> (clipboard_send(
            conn_type,
            needs,
            files,
            several,
        ) == ClipboardSend::Nothing <==> !needs.text_required),
        conn_type == ConnType::DEFAULT_CONN && !files && needs.text_required ==> (clipboard_send(
            conn_type,
            needs,
            files,
            several,
        ) == ClipboardSend::SingleFormat <==> several && needs.single_format),
{
}

/// The peers that are controlled are those whose connection is for that.
pub proof fn lemma_controls(peer: (PeerKeyView, FlutterSessionView))
    ensures
        controls(peer) <==> peer.1.lc.conn_type == ConnType::DEFAULT_CONN,
{
}

}
