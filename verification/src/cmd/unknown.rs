use crate::cmd::{bulk_of, bulk_text, CommandView};
use crate::connection::frame::{Frame, FrameView};
use vstd::prelude::*;
use vstd::string::StringExecFns;

verus! {

/// Represents an "unknown" command. This is not a real `Redis` command.
#[derive(Debug)]
pub struct Unknown {
    command_name: String,
}

impl View for Unknown {
    type V = CommandView;

    closed spec fn view(&self) -> CommandView {
        CommandView::Unknown { name: self.command_name@ }
    }
}

impl Unknown {
    /// The view of this command is of its own kind.
    pub proof fn lemma_kind(&self)
        ensures
            self@ is Unknown,
    {
    }

    /// The answer to a command that is not known.
    pub open spec fn response_spec(name: Seq<char>) -> FrameView {
        FrameView::Error("err unknown command '"@ + name + "'"@)
    }

    /// Create a new `Unknown` command which responds to unknown commands
    /// issued by clients
    pub fn new(key: &str) -> (unknown: Unknown)
        ensures
            unknown@ == (CommandView::Unknown { name: key@ }),
    {
        Unknown { command_name: key.to_string() }
    }

    /// Returns the command name
    pub fn get_name(&self) -> (name: &str)
        ensures
            self@ == (CommandView::Unknown { name: name@ }),
    {
        self.command_name.as_str()
    }

    /// Responds to the client, indicating the command is not recognized.
    ///
    /// This usually means the command is not yet implemented by `mini-redis`.
    pub fn apply(self) -> (response: Frame)
        ensures
            self@ matches CommandView::Unknown { name } && response@ == Unknown::response_spec(
                name,
            ),
    {
        let message = "err unknown command '".to_string();
        let message = message.concat(self.command_name.as_str());
        Frame::Error(message.concat("'"))
    }

    /// The frame that carries nothing but the command's name.
    pub fn into_frame(self) -> (frame: Frame)
        ensures
            frame@ == self@.frame_spec(),
    {
        let mut frame = Frame::array();
        let _ = frame.push_bulk(bulk_of(self.command_name.as_str()));
        proof {
            assert(frame@->Array_0 =~= seq![bulk_text(self.command_name@)]);
        }
        frame
    }
}

} // verus!
