use vstd::prelude::*;

use crate::error::PipelineError;

verus! {

/// Channel layouts the speech codec can decode to.
#[derive(Clone, Copy, Debug, PartialEq, Eq, Structural)]
pub enum ChannelLayout {
    Mono,
    Stereo,
}

/// The codec layout for a device with `channels` output channels; any other count is a
/// configuration the pipeline cannot serve.
pub fn channel_layout(channels: u16) -> (r: Result<ChannelLayout, PipelineError>)
    ensures
        channels == 1 ==> r == Ok::<ChannelLayout, PipelineError>(ChannelLayout::Mono),
        channels == 2 ==> r == Ok::<ChannelLayout, PipelineError>(ChannelLayout::Stereo),
        channels != 1 && channels != 2 ==> r == Err::<ChannelLayout, PipelineError>(
            PipelineError::ConfigUnsupported,
        ),
{
    if channels == 1 {
        Ok(ChannelLayout::Mono)
    } else if channels == 2 {
        Ok(ChannelLayout::Stereo)
    } else {
        Err(PipelineError::ConfigUnsupported)
    }
}

/// Picks the device the user selected among the available ones: the first whose name is
/// the selection. `None` means the selection is not available and the default device
/// should be used.
pub fn select_device(available: &Vec<String>, selection: &String) -> (r: Option<usize>)
    ensures
        r matches Some(i) ==> i < available@.len() && available@[i as int]@ == selection@
            && forall|j: int| 0 <= j < i ==> (#[trigger] available@[j])@ != selection@,
        r is None ==> forall|j: int|
            0 <= j < available@.len() ==> (#[trigger] available@[j])@ != selection@,
{
    let mut i: usize = 0;
    while i < available.len()
        invariant
            i <= available@.len(),
            forall|j: int| 0 <= j < i ==> (#[trigger] available@[j])@ != selection@,
        decreases available@.len() - i,
    {
        if available[i] == *selection {
            return Some(i);
        }
        i = i + 1;
    }
    None
}

/// What a search for a default device does after one look.
#[derive(Clone, Copy, Debug, PartialEq, Eq, Structural)]
pub enum SearchAction {
    /// A device was found: open it.
    Use,
    /// None yet: wait one polling interval and look again. Only at startup, never from a
    /// device callback.
    WaitAndRetry,
}

pub fn search_action(found: bool) -> (r: SearchAction)
    ensures
        found <==> r == SearchAction::Use,
{
    if found {
        SearchAction::Use
    } else {
        SearchAction::WaitAndRetry
    }
}

/// The lifecycle of one device session's hardware stream.
#[derive(Clone, Copy, Debug, PartialEq, Eq, Structural)]
pub struct DeviceSession {
    open: bool,
}

impl DeviceSession {
    pub closed spec fn is_open(&self) -> bool {
        self.open
    }

    /// A session whose stream has just been started.
    pub fn opened() -> (r: DeviceSession)
        ensures
            r.is_open(),
    {
        DeviceSession { open: true }
    }

    pub fn is_open_now(&self) -> (r: bool)
        ensures
            r == self.is_open(),
    {
        self.open
    }

    /// Closes the session. Returns `true` exactly when the hardware stream must be
    /// stopped now, which is only on the first close: closing a closed session does
    /// nothing.
    pub fn close(&mut self) -> (r: bool)
        ensures
            (r, *final(self)) == close_effect(*old(self)),
    {
        let was_open = self.open;
        self.open = false;
        was_open
    }
}

/// What closing does: whether the stream is to be stopped now, and the session after.
pub open spec fn close_effect(s: DeviceSession) -> (bool, DeviceSession) {
    (s.is_open(), DeviceSession::closed_session())
}

impl DeviceSession {
    pub closed spec fn closed_session() -> DeviceSession {
        DeviceSession { open: false }
    }

    proof fn lemma_closed_session_is_closed()
        ensures
            !DeviceSession::closed_session().is_open(),
    {
    }
}

/// Idempotence of teardown: closing a session twice stops its stream at most once; the
/// second close stops nothing and leaves the session as the first left it.
pub proof fn lemma_close_idempotent(s: DeviceSession)
    ensures
        !close_effect(close_effect(s).1).0,
        close_effect(close_effect(s).1).1 == close_effect(s).1,
        close_effect(s).0 == s.is_open(),
{
    DeviceSession::lemma_closed_session_is_closed();
}

} // verus!
