use vstd::prelude::*;
use crate::channel::{DiscoveryMessage, PathMsg, PathReceiver};

verus! {

/// `std::sync::mpsc::Receiver::recv` waits for the next message. What it
/// hands back depends on the sending threads, so nothing is stated of it.
pub assume_specification<T>[ std::sync::mpsc::Receiver::<T>::recv ](
    receiver: &std::sync::mpsc::Receiver<T>,
) -> (r: Result<T, std::sync::mpsc::RecvError>);

/// The repositories that a scan finds, to be pulled one at a time while
/// the scan may still be running. The sequence is finite and can be gone
/// through once.
pub struct RepoIterator {
    recv: PathReceiver,
    finished: bool,
    disconnected: bool,
}

impl RepoIterator {
    /// Whether the end of the sequence has been reached.
    pub closed spec fn is_finished(&self) -> bool {
        self.finished
    }

    /// Whether the sequence ended because the scan went away without
    /// saying that it was done.
    pub closed spec fn is_disconnected(&self) -> bool {
        self.disconnected
    }

    /// The receiving end that the sequence pulls from.
    pub closed spec fn source(&self) -> PathReceiver {
        self.recv
    }

    /// A sequence that pulls from the receiving end of a scan's channel:
    /// it holds that end, and has neither ended nor lost its scan.
    pub fn new(recv: PathReceiver) -> (r: RepoIterator)
        ensures
            r.source() == recv,
            !r.is_finished(),
            !r.is_disconnected(),
    {
        RepoIterator { recv, finished: false, disconnected: false }
    }

    /// Whether the end of the sequence has been reached.
    pub fn finished(&self) -> (r: bool)
        ensures
            r == self.is_finished(),
    {
        self.finished
    }

    /// Whether the sequence ended because the scan went away without
    /// saying that it was done.
    pub fn disconnected(&self) -> (r: bool)
        ensures
            r == self.is_disconnected(),
    {
        self.disconnected
    }

    /// Takes in what the channel handed over: a repository is yielded, the
    /// word that the scan is done ends the sequence, and so does a channel
    /// whose sender is gone.
    pub fn accept(&mut self, received: Result<PathMsg, std::sync::mpsc::RecvError>) -> (r: Option<
        String,
    >)
        ensures
            final(self).source() == old(self).source(),
            match received {
                Ok(DiscoveryMessage::Found(path)) => {
                    &&& r == Some(path)
                    &&& final(self).is_finished() == old(self).is_finished()
                    &&& final(self).is_disconnected() == old(self).is_disconnected()
                },
                Ok(DiscoveryMessage::Done) => {
                    &&& r is None
                    &&& final(self).is_finished()
                    &&& final(self).is_disconnected() == old(self).is_disconnected()
                },
                Err(_) => r is None && final(self).is_finished() && final(self).is_disconnected(),
            },
    {
        match received {
            Ok(DiscoveryMessage::Found(path)) => Some(path),
            Ok(DiscoveryMessage::Done) => {
                self.finished = true;
                None
            },
            Err(_) => {
                self.finished = true;
                self.disconnected = true;
                None
            },
        }
    }

    /// The next repository, or `None` at the end of the sequence. Before
    /// the end it waits for the scan; after the end it answers `None` at
    /// once. It goes on pulling from the same receiving end.
    pub fn next(&mut self) -> (r: Option<String>)
        ensures
            final(self).source() == old(self).source(),
            old(self).is_finished() ==> r is None && final(self).is_disconnected() == old(
                self,
            ).is_disconnected(),
            final(self).is_finished() == (r is None),
            old(self).is_disconnected() ==> final(self).is_disconnected(),
    {
        if self.finished {
            None
        } else {
            let received = self.recv.recv();
            self.accept(received)
        }
    }
}

} // verus!
