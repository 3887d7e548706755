//! Setting the sizes of the buffers of a socket.

use vstd::prelude::*;

verus! {

/// How large a buffer is to be.
#[derive(Clone, Copy, Debug, PartialEq, Eq, Structural)]
pub enum SocketBufferSize {
    /// As large as it is.
    Default,
    /// As large as it can be.
    Maximum,
    /// That many bytes.
    Custom(u32),
}

impl SocketBufferSize {
    /// The size that is asked for, if any is.
    pub open spec fn wanted(self) -> Option<u32> {
        match self {
            SocketBufferSize::Default => None,
            SocketBufferSize::Maximum => Some(u32::MAX),
            SocketBufferSize::Custom(size) => Some(size),
        }
    }

    /// The size that is asked for, if any is.
    pub fn size(&self) -> (size: Option<u32>)
        ensures
            size == self.wanted(),
    {
        match self {
            SocketBufferSize::Default => None,
            SocketBufferSize::Maximum => Some(u32::MAX),
            SocketBufferSize::Custom(size) => Some(*size),
        }
    }
}

/// A call on a socket.
#[derive(Clone, Copy, Debug, PartialEq, Eq, Structural)]
pub enum BufferCall {
    ReadSendSize,
    ReadRecvSize,
    SetSendSize(u32),
    SetRecvSize(u32),
}

/// What is to be done next.
#[derive(Clone, Copy, Debug, PartialEq, Eq, Structural)]
pub enum BufferStage {
    /// The sizes are read first.
    ReadingSend,
    ReadingRecv,
    SettingSend,
    /// A size that was set is read again, as it need not be the one that was asked for.
    CheckingSend,
    SettingRecv,
    CheckingRecv,
    Finished,
    Failed,
}

/// The sizes that are asked for, and what is to be done next.
#[derive(Clone, Copy, Debug, PartialEq, Eq, Structural)]
pub struct SocketBuffers {
    pub send: Option<u32>,
    pub recv: Option<u32>,
    pub stage: BufferStage,
}

impl SocketBuffers {
    /// The receive buffer comes last.
    pub open spec fn recv_stage(self) -> BufferStage {
        if self.recv is Some {
            BufferStage::SettingRecv
        } else {
            BufferStage::Finished
        }
    }

    /// What comes after a call. A size that cannot be read is a failure, and one that cannot be
    /// set is not.
    pub open spec fn stage_after(self, succeeded: bool) -> BufferStage {
        match self.stage {
            BufferStage::ReadingSend => if succeeded {
                BufferStage::ReadingRecv
            } else {
                BufferStage::Failed
            },
            BufferStage::ReadingRecv => if !succeeded {
                BufferStage::Failed
            } else if self.send is Some {
                BufferStage::SettingSend
            } else {
                self.recv_stage()
            },
            BufferStage::SettingSend => if succeeded {
                BufferStage::CheckingSend
            } else {
                self.recv_stage()
            },
            BufferStage::CheckingSend => if succeeded {
                self.recv_stage()
            } else {
                BufferStage::Failed
            },
            BufferStage::SettingRecv => if succeeded {
                BufferStage::CheckingRecv
            } else {
                BufferStage::Finished
            },
            BufferStage::CheckingRecv => if succeeded {
                BufferStage::Finished
            } else {
                BufferStage::Failed
            },
            ended => ended,
        }
    }

    /// Only a size that is asked for is set.
    pub open spec fn wf(self) -> bool {
        &&& (self.stage is SettingSend || self.stage is CheckingSend) ==> self.send is Some
        &&& (self.stage is SettingRecv || self.stage is CheckingRecv) ==> self.recv is Some
    }

    /// The call that is to be made next.
    pub open spec fn next_call(self) -> Option<BufferCall> {
        match self.stage {
            BufferStage::ReadingSend | BufferStage::CheckingSend => Some(BufferCall::ReadSendSize),
            BufferStage::ReadingRecv | BufferStage::CheckingRecv => Some(BufferCall::ReadRecvSize),
            BufferStage::SettingSend => Some(BufferCall::SetSendSize(self.send->0)),
            BufferStage::SettingRecv => Some(BufferCall::SetRecvSize(self.recv->0)),
            BufferStage::Finished | BufferStage::Failed => None,
        }
    }

    /// The call that is to be made next, if any is.
    pub fn call(&self) -> (call: Option<BufferCall>)
        requires
            self.wf(),
        ensures
            call == self.next_call(),
    {
        match self.stage {
            BufferStage::ReadingSend | BufferStage::CheckingSend => Some(BufferCall::ReadSendSize),
            BufferStage::ReadingRecv | BufferStage::CheckingRecv => Some(BufferCall::ReadRecvSize),
            BufferStage::SettingSend => match self.send {
                Some(size) => Some(BufferCall::SetSendSize(size)),
                None => None,
            },
            BufferStage::SettingRecv => match self.recv {
                Some(size) => Some(BufferCall::SetRecvSize(size)),
                None => None,
            },
            BufferStage::Finished | BufferStage::Failed => None,
        }
    }

    /// Takes note of how a call went.
    pub fn called(&mut self, succeeded: bool)
        requires
            old(self).wf(),
        ensures
            *final(self) == (SocketBuffers {
                stage: old(self).stage_after(succeeded),
                ..*old(self)
            }),
            final(self).wf(),
    {
        let recv_stage = if self.recv.is_some() {
            BufferStage::SettingRecv
        } else {
            BufferStage::Finished
        };
        self.stage = match self.stage {
            BufferStage::ReadingSend => if succeeded {
                BufferStage::ReadingRecv
            } else {
                BufferStage::Failed
            },
            BufferStage::ReadingRecv => if !succeeded {
                BufferStage::Failed
            } else if self.send.is_some() {
                BufferStage::SettingSend
            } else {
                recv_stage
            },
            BufferStage::SettingSend => if succeeded {
                BufferStage::CheckingSend
            } else {
                recv_stage
            },
            BufferStage::CheckingSend => if succeeded {
                recv_stage
            } else {
                BufferStage::Failed
            },
            BufferStage::SettingRecv => if succeeded {
                BufferStage::CheckingRecv
            } else {
                BufferStage::Finished
            },
            BufferStage::CheckingRecv => if succeeded {
                BufferStage::Finished
            } else {
                BufferStage::Failed
            },
            ended => ended,
        };
    }
}

/// Begins to set the sizes of the buffers of a socket.
pub fn set_socket_buffers(
    send_buffer_bytes: SocketBufferSize,
    recv_buffer_bytes: SocketBufferSize,
) -> (buffers: SocketBuffers)
    ensures
        buffers == (SocketBuffers {
            send: send_buffer_bytes.wanted(),
            recv: recv_buffer_bytes.wanted(),
            stage: BufferStage::ReadingSend,
        }),
        buffers.wf(),
{
    SocketBuffers {
        send: send_buffer_bytes.size(),
        recv: recv_buffer_bytes.size(),
        stage: BufferStage::ReadingSend,
    }
}

/// The stage after a number of calls that went so.
pub open spec fn after_calls(buffers: SocketBuffers, succeeded: Seq<bool>) -> SocketBuffers
    decreases succeeded.len(),
{
    if succeeded.len() == 0 {
        buffers
    } else {
        let before = after_calls(buffers, succeeded.drop_last());
        SocketBuffers { stage: before.stage_after(succeeded.last()), ..before }
    }
}

/// Setting the sizes takes six calls at most. It fails only where a size cannot be read.
pub proof fn law_buffers_are_set_in_six_calls(buffers: SocketBuffers, succeeded: Seq<bool>)
    requires
        buffers.stage is ReadingSend,
        succeeded.len() == 6,
    ensures
        after_calls(buffers, succeeded).next_call() is None,
        after_calls(buffers, succeeded).stage is Failed ==> exists|i: int|
            0 <= i < 6 && !#[trigger] succeeded[i] && match after_calls(
                buffers,
                succeeded.take(i),
            ).next_call() {
                Some(BufferCall::ReadSendSize) | Some(BufferCall::ReadRecvSize) => true,
                _ => false,
            },
{
    let s0 = succeeded.take(0);
    let s1 = succeeded.take(1);
    let s2 = succeeded.take(2);
    let s3 = succeeded.take(3);
    let s4 = succeeded.take(4);
    let s5 = succeeded.take(5);
    assert(s1.drop_last() =~= s0);
    assert(s2.drop_last() =~= s1);
    assert(s3.drop_last() =~= s2);
    assert(s4.drop_last() =~= s3);
    assert(s5.drop_last() =~= s4);
    assert(succeeded.drop_last() =~= s5);
    assert(s1.last() == succeeded[0] && s2.last() == succeeded[1] && s3.last() == succeeded[2]
        && s4.last() == succeeded[3] && s5.last() == succeeded[4]);
    let b1 = after_calls(buffers, s1);
    let b2 = after_calls(buffers, s2);
    let b3 = after_calls(buffers, s3);
    let b4 = after_calls(buffers, s4);
    let b5 = after_calls(buffers, s5);
    assert(after_calls(buffers, s0) == buffers);
    assert(b1.stage == buffers.stage_after(succeeded[0]));
    assert(b2.stage == b1.stage_after(succeeded[1]));
    assert(b3.stage == b2.stage_after(succeeded[2]));
    assert(b4.stage == b3.stage_after(succeeded[3]));
    assert(b5.stage == b4.stage_after(succeeded[4]));
    assert(after_calls(buffers, succeeded).stage == b5.stage_after(succeeded[5]));
}

/// A custom size is asked for as it is, the largest size as the largest number, and no size where
/// the buffer is to stay as it is.
pub proof fn law_size_is_that_of_the_settings(size: u32)
    ensures
        SocketBufferSize::Custom(size).wanted() == Some(size),
        SocketBufferSize::Maximum.wanted() == Some(0xffff_ffffu32),
        SocketBufferSize::Default.wanted() is None,
{
}

/// One call follows the other: the sizes are read first; then the size of the send buffer is set
/// and read again, and then that of the receive buffer, each of them only if a size is asked for,
/// and to that size. A size that cannot be set is left as it is, and the next one follows. A size
/// that cannot be read ends it all.
pub proof fn law_calls_follow_each_other(buffers: SocketBuffers, succeeded: bool)
    ensures
        ({
            let next = SocketBuffers { stage: buffers.stage_after(succeeded), ..buffers };
            let set_recv = match buffers.recv {
                Some(size) => Some(BufferCall::SetRecvSize(size)),
                None => None,
            };
            let set_both = match buffers.send {
                Some(size) => Some(BufferCall::SetSendSize(size)),
                None => set_recv,
            };
            match buffers.stage {
                BufferStage::ReadingSend => {
                    &&& buffers.next_call() == Some(BufferCall::ReadSendSize)
                    &&& succeeded ==> next.next_call() == Some(BufferCall::ReadRecvSize)
                    &&& !succeeded ==> next.stage is Failed
                },
                BufferStage::ReadingRecv => {
                    &&& buffers.next_call() == Some(BufferCall::ReadRecvSize)
                    &&& succeeded ==> next.next_call() == set_both
                    &&& succeeded && set_both is None ==> next.stage is Finished
                    &&& !succeeded ==> next.stage is Failed
                },
                BufferStage::SettingSend => {
                    &&& buffers.send is Some ==> buffers.next_call() == Some(
                        BufferCall::SetSendSize(buffers.send->0),
                    )
                    &&& succeeded ==> next.next_call() == Some(BufferCall::ReadSendSize)
                    &&& !succeeded ==> next.next_call() == set_recv
                    &&& !succeeded && set_recv is None ==> next.stage is Finished
                },
                BufferStage::CheckingSend => {
                    &&& buffers.next_call() == Some(BufferCall::ReadSendSize)
                    &&& succeeded ==> next.next_call() == set_recv
                    &&& succeeded && set_recv is None ==> next.stage is Finished
                    &&& !succeeded ==> next.stage is Failed
                },
                BufferStage::SettingRecv => {
                    &&& buffers.recv is Some ==> buffers.next_call() == Some(
                        BufferCall::SetRecvSize(buffers.recv->0),
                    )
                    &&& succeeded ==> next.next_call() == Some(BufferCall::ReadRecvSize)
                    &&& !succeeded ==> next.stage is Finished
                },
                BufferStage::CheckingRecv => {
                    &&& buffers.next_call() == Some(BufferCall::ReadRecvSize)
                    &&& succeeded ==> next.stage is Finished
                    &&& !succeeded ==> next.stage is Failed
                },
                BufferStage::Finished | BufferStage::Failed => {
                    &&& buffers.next_call() is None
                    &&& next == buffers
                },
            }
        }),
{
}

/// The call that is made after a number of calls that went so.
pub open spec fn call_after(buffers: SocketBuffers, succeeded: Seq<bool>) -> Option<BufferCall> {
    after_calls(buffers, succeeded).next_call()
}

/// Where both sizes are asked for and can be set, both are set to what is asked for, the send
/// buffer first, and each is read before and after.
pub proof fn law_both_sizes_are_set(send: u32, recv: u32)
    ensures
        ({
            let buffers = SocketBuffers {
                send: Some(send),
                recv: Some(recv),
                stage: BufferStage::ReadingSend,
            };
            &&& call_after(buffers, seq![]) == Some(BufferCall::ReadSendSize)
            &&& call_after(buffers, seq![true]) == Some(BufferCall::ReadRecvSize)
            &&& call_after(buffers, seq![true, true]) == Some(BufferCall::SetSendSize(send))
            &&& call_after(buffers, seq![true, true, true]) == Some(BufferCall::ReadSendSize)
            &&& call_after(buffers, seq![true, true, true, true]) == Some(
                BufferCall::SetRecvSize(recv),
            )
            &&& call_after(buffers, seq![true, true, true, true, true]) == Some(
                BufferCall::ReadRecvSize,
            )
            &&& after_calls(buffers, seq![true, true, true, true, true, true]).stage is Finished
        }),
{
    let one = seq![true];
    let two = seq![true, true];
    let three = seq![true, true, true];
    let four = seq![true, true, true, true];
    let five = seq![true, true, true, true, true];
    let six = seq![true, true, true, true, true, true];
    assert(one.drop_last() =~= Seq::empty());
    assert(two.drop_last() =~= one);
    assert(three.drop_last() =~= two);
    assert(four.drop_last() =~= three);
    assert(five.drop_last() =~= four);
    assert(six.drop_last() =~= five);
    reveal_with_fuel(after_calls, 7);
}

} // verus!
