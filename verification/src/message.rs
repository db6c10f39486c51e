//! Messages exchanged with the surrounding collector process: tasks, device
//! lists, samples, and matched frame pairs.

use vstd::prelude::*;

use crate::device::{DeviceSummary, DeviceTypes};
use crate::packet::{read_vec, Packet};
use crate::samples::{sample_like, Sample, SampleTypes};
use crate::task::Task;

verus! {

#[verifier::external_type_specification]
#[verifier::external_body]
#[verifier::reject_recursive_types(T)]
pub struct ExSender<T>(std::sync::mpsc::Sender<T>);

/// One message to or from the surrounding collector process.
#[derive(Debug)]
pub enum Message {
    ErrorMessage(String),
    Task(Task),
    PeriodicTaskList(Vec<Task>),
    DeviceList(Vec<DeviceSummary>),
    Samples(Vec<(Vec<u8>, Sample)>),
    RequestSamples { sample_type: SampleTypes, num_samples: u16 },
    Packet { received: Packet, sent: Packet, device_type: DeviceTypes },
    ClearSamples { sample_type: SampleTypes, keys: Vec<Vec<u8>> },
}

/// A message together with the channel its answer should travel back on.
pub struct MessageCarrier {
    pub message: Message,
    pub tx: std::sync::mpsc::Sender<Message>,
}

impl Message {
    /// Wraps a task.
    pub fn new_task(task: Task) -> (r: Self)
        ensures
            r == Message::Task(task),
    {
        Message::Task(task)
    }

    /// Wraps a matched frame pair and the answering device's class.
    pub fn new_packet(received: Packet, sent: Packet, device_type: DeviceTypes) -> (r: Self)
        ensures
            r == (Message::Packet { received, sent, device_type }),
    {
        Message::Packet { received, sent, device_type }
    }

    /// Wraps a copy of a device list.
    pub fn new_device_list(device_list: &Vec<DeviceSummary>) -> (r: Self)
        ensures
            r matches Message::DeviceList(l) && l@ == device_list@,
    {
        let mut out: Vec<DeviceSummary> = Vec::new();
        let mut i: usize = 0;
        while i < device_list.len()
            invariant
                i <= device_list@.len(),
                out@ == device_list@.take(i as int),
            decreases device_list@.len() - i,
        {
            out.push(device_list[i]);
            proof {
                assert(out@ =~= device_list@.take(i + 1));
            }
            i = i + 1;
        }
        proof {
            assert(out@ =~= device_list@);
        }
        Message::DeviceList(out)
    }

    /// Wraps a copy of keyed samples.
    pub fn new_samples(samples: &Vec<(Vec<u8>, Sample)>) -> (r: Self)
        ensures
            r matches Message::Samples(s) && s@.len() == samples@.len() && forall|i: int|
                0 <= i < samples@.len() ==> s@[i].0@ == samples@[i].0@ && sample_like(
                    s@[i].1,
                    samples@[i].1,
                ),
    {
        let mut out: Vec<(Vec<u8>, Sample)> = Vec::new();
        let mut i: usize = 0;
        while i < samples.len()
            invariant
                i <= samples@.len(),
                out@.len() == i,
                forall|k: int|
                    0 <= k < i ==> out@[k].0@ == samples@[k].0@ && sample_like(
                        out@[k].1,
                        samples@[k].1,
                    ),
            decreases samples@.len() - i,
        {
            let el = &samples[i];
            let key = read_vec(&el.0, 0, el.0.len());
            proof {
                assert(el.0@.subrange(0, el.0@.len() as int) =~= el.0@);
            }
            out.push((key, el.1.clone()));
            i = i + 1;
        }
        Message::Samples(out)
    }

    /// Wraps a request for a number of samples of one class.
    pub fn new_request_samples(sample_type: SampleTypes, num_samples: u16) -> (r: Self)
        ensures
            r == (Message::RequestSamples { sample_type, num_samples }),
    {
        Message::RequestSamples { sample_type, num_samples }
    }

    /// Wraps an error report.
    pub fn new_error_message(error_message: String) -> (r: Self)
        ensures
            r == Message::ErrorMessage(error_message),
    {
        Message::ErrorMessage(error_message)
    }
}

} // verus!
