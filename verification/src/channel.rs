use vstd::prelude::*;
use crate::status::StatusEntry;

verus! {

/// The sending end of a channel of `std::sync::mpsc`, carried through as
/// it is.
#[verifier::external_type_specification]
#[verifier::external_body]
#[verifier::reject_recursive_types(T)]
pub struct ExSender<T>(std::sync::mpsc::Sender<T>);

/// The receiving end of a channel of `std::sync::mpsc`, carried through
/// as it is.
#[verifier::external_type_specification]
#[verifier::external_body]
#[verifier::reject_recursive_types(T)]
pub struct ExReceiver<T>(std::sync::mpsc::Receiver<T>);

/// What `std::sync::mpsc::Receiver::recv` reports when every sender is
/// gone and nothing is left to receive.
#[verifier::external_type_specification]
#[verifier::external_body]
pub struct ExRecvError(std::sync::mpsc::RecvError);

/// `std::sync::mpsc::channel` hands out the two ends of a new channel.
/// Nothing is stated of them: what a channel holds depends on the threads
/// that use it.
pub assume_specification<T>[ std::sync::mpsc::channel::<T> ]() -> (r: (
    std::sync::mpsc::Sender<T>,
    std::sync::mpsc::Receiver<T>,
));

/// What a scan sends to its consumer: a repository that it found, or the
/// word that it is done.
#[derive(PartialEq, Eq, Clone, Debug)]
pub enum DiscoveryMessage {
    Found(String),
    Done,
}

/// What travels from a scan to its consumer.
pub type PathMsg = DiscoveryMessage;

/// What travels from a worker to the collector of a report.
pub type StatusMsg = StatusEntry;

pub type PathSender = std::sync::mpsc::Sender<PathMsg>;

pub type StatusSender = std::sync::mpsc::Sender<StatusMsg>;

pub type StatusReceiver = std::sync::mpsc::Receiver<StatusMsg>;

pub type PathReceiver = std::sync::mpsc::Receiver<PathMsg>;

/// The two ends of a new channel for the repositories that a scan finds.
pub fn path_channel() -> (PathSender, PathReceiver) {
    std::sync::mpsc::channel()
}

/// The two ends of a new channel for the entries that workers report.
pub fn status_channel() -> (StatusSender, StatusReceiver) {
    std::sync::mpsc::channel()
}

} // verus!
