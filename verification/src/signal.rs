//! The signals that a process can be sent.

use vstd::prelude::*;

verus! {

/// A signal, by its symbolic name. The signals are numbered from 1 to 31 in
/// the order in which they stand here.
#[derive(Clone, Copy, Debug, PartialEq, Eq, Structural)]
pub enum Signal {
    Hangup,
    Interrupt,
    Quit,
    Illegal,
    Trap,
    Abort,
    Bus,
    FloatingPointException,
    Kill,
    User1,
    Segv,
    User2,
    Pipe,
    Alarm,
    Term,
    Stklft,
    Child,
    Continue,
    Stop,
    TSTP,
    TTIN,
    TTOU,
    Urgent,
    XCPU,
    XFSZ,
    VirtualAlarm,
    Profiling,
    Winch,
    IO,
    Power,
    Sys,
}

/// The signal with the number `n`, if there is one.
pub open spec fn signal_of(n: int) -> Option<Signal> {
    if n == 1 {
        Some(Signal::Hangup)
    } else if n == 2 {
        Some(Signal::Interrupt)
    } else if n == 3 {
        Some(Signal::Quit)
    } else if n == 4 {
        Some(Signal::Illegal)
    } else if n == 5 {
        Some(Signal::Trap)
    } else if n == 6 {
        Some(Signal::Abort)
    } else if n == 7 {
        Some(Signal::Bus)
    } else if n == 8 {
        Some(Signal::FloatingPointException)
    } else if n == 9 {
        Some(Signal::Kill)
    } else if n == 10 {
        Some(Signal::User1)
    } else if n == 11 {
        Some(Signal::Segv)
    } else if n == 12 {
        Some(Signal::User2)
    } else if n == 13 {
        Some(Signal::Pipe)
    } else if n == 14 {
        Some(Signal::Alarm)
    } else if n == 15 {
        Some(Signal::Term)
    } else if n == 16 {
        Some(Signal::Stklft)
    } else if n == 17 {
        Some(Signal::Child)
    } else if n == 18 {
        Some(Signal::Continue)
    } else if n == 19 {
        Some(Signal::Stop)
    } else if n == 20 {
        Some(Signal::TSTP)
    } else if n == 21 {
        Some(Signal::TTIN)
    } else if n == 22 {
        Some(Signal::TTOU)
    } else if n == 23 {
        Some(Signal::Urgent)
    } else if n == 24 {
        Some(Signal::XCPU)
    } else if n == 25 {
        Some(Signal::XFSZ)
    } else if n == 26 {
        Some(Signal::VirtualAlarm)
    } else if n == 27 {
        Some(Signal::Profiling)
    } else if n == 28 {
        Some(Signal::Winch)
    } else if n == 29 {
        Some(Signal::IO)
    } else if n == 30 {
        Some(Signal::Power)
    } else if n == 31 {
        Some(Signal::Sys)
    } else {
        None
    }
}

impl Signal {
    /// The number of the signal.
    pub open spec fn number_value(self) -> int {
        match self {
            Signal::Hangup => 1,
            Signal::Interrupt => 2,
            Signal::Quit => 3,
            Signal::Illegal => 4,
            Signal::Trap => 5,
            Signal::Abort => 6,
            Signal::Bus => 7,
            Signal::FloatingPointException => 8,
            Signal::Kill => 9,
            Signal::User1 => 10,
            Signal::Segv => 11,
            Signal::User2 => 12,
            Signal::Pipe => 13,
            Signal::Alarm => 14,
            Signal::Term => 15,
            Signal::Stklft => 16,
            Signal::Child => 17,
            Signal::Continue => 18,
            Signal::Stop => 19,
            Signal::TSTP => 20,
            Signal::TTIN => 21,
            Signal::TTOU => 22,
            Signal::Urgent => 23,
            Signal::XCPU => 24,
            Signal::XFSZ => 25,
            Signal::VirtualAlarm => 26,
            Signal::Profiling => 27,
            Signal::Winch => 28,
            Signal::IO => 29,
            Signal::Power => 30,
            Signal::Sys => 31,
        }
    }

    /// Computes `number_value`.
    pub fn number(self) -> (n: i32)
        ensures
            n == self.number_value(),
            1 <= n <= 31,
    {
        match self {
            Signal::Hangup => 1,
            Signal::Interrupt => 2,
            Signal::Quit => 3,
            Signal::Illegal => 4,
            Signal::Trap => 5,
            Signal::Abort => 6,
            Signal::Bus => 7,
            Signal::FloatingPointException => 8,
            Signal::Kill => 9,
            Signal::User1 => 10,
            Signal::Segv => 11,
            Signal::User2 => 12,
            Signal::Pipe => 13,
            Signal::Alarm => 14,
            Signal::Term => 15,
            Signal::Stklft => 16,
            Signal::Child => 17,
            Signal::Continue => 18,
            Signal::Stop => 19,
            Signal::TSTP => 20,
            Signal::TTIN => 21,
            Signal::TTOU => 22,
            Signal::Urgent => 23,
            Signal::XCPU => 24,
            Signal::XFSZ => 25,
            Signal::VirtualAlarm => 26,
            Signal::Profiling => 27,
            Signal::Winch => 28,
            Signal::IO => 29,
            Signal::Power => 30,
            Signal::Sys => 31,
        }
    }

    /// The signal with the number `n`: there is one exactly for the numbers
    /// from 1 to 31.
    pub fn from_number(n: i32) -> (signal: Option<Signal>)
        ensures
            signal == signal_of(n as int),
            signal is Some <==> 1 <= n <= 31,
    {
        match n {
            1 => Some(Signal::Hangup),
            2 => Some(Signal::Interrupt),
            3 => Some(Signal::Quit),
            4 => Some(Signal::Illegal),
            5 => Some(Signal::Trap),
            6 => Some(Signal::Abort),
            7 => Some(Signal::Bus),
            8 => Some(Signal::FloatingPointException),
            9 => Some(Signal::Kill),
            10 => Some(Signal::User1),
            11 => Some(Signal::Segv),
            12 => Some(Signal::User2),
            13 => Some(Signal::Pipe),
            14 => Some(Signal::Alarm),
            15 => Some(Signal::Term),
            16 => Some(Signal::Stklft),
            17 => Some(Signal::Child),
            18 => Some(Signal::Continue),
            19 => Some(Signal::Stop),
            20 => Some(Signal::TSTP),
            21 => Some(Signal::TTIN),
            22 => Some(Signal::TTOU),
            23 => Some(Signal::Urgent),
            24 => Some(Signal::XCPU),
            25 => Some(Signal::XFSZ),
            26 => Some(Signal::VirtualAlarm),
            27 => Some(Signal::Profiling),
            28 => Some(Signal::Winch),
            29 => Some(Signal::IO),
            30 => Some(Signal::Power),
            31 => Some(Signal::Sys),
            _ => None,
        }
    }
}

/// Numbering is one to one: a signal's number lies between 1 and 31 and leads
/// back to the signal, and no other number leads to any signal.
pub proof fn lemma_signal_numbers(signal: Signal, n: int)
    ensures
        1 <= signal.number_value() <= 31,
        signal_of(signal.number_value()) == Some(signal),
        signal_of(n) is Some <==> 1 <= n <= 31,
        signal_of(n) == Some(signal) ==> n == signal.number_value(),
{
}

} // verus!
