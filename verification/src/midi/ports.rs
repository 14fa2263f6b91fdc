//! Checks on the MIDI ports a user chooses. Listing the ports and asking
//! the user is the application's part; it hands the numbers it read to
//! these functions and acts on their verdict.

use vstd::prelude::*;

verus! {

/// Why no port choice can be made at all.
#[derive(Clone, Copy, Debug, PartialEq, Eq, Structural)]
pub enum PortsError {
    /// There is no MIDI input port.
    NoInputPorts,
    /// There is no MIDI output port.
    NoOutputPorts,
    /// Fewer output ports exist than must be chosen.
    TooFewOutputPorts { min: usize, available: usize },
}

/// The verdict on a list of chosen output ports.
#[derive(Clone, Copy, Debug, PartialEq, Eq, Structural)]
pub enum OutputChoice {
    /// The choice is accepted.
    Accepted,
    /// Fewer than the minimum or more than the maximum were chosen.
    WrongCount { selected: usize },
    /// A chosen number names no port.
    OutOfRange,
    /// A port was chosen twice.
    Duplicates,
}

/// Whether an input port can be chosen among `available` ports.
pub fn check_input_ports(available: usize) -> (r: Result<(), PortsError>)
    ensures
        r == if available == 0 {
            Err::<(), PortsError>(PortsError::NoInputPorts)
        } else {
            Ok(())
        },
{
    if available == 0 {
        Err(PortsError::NoInputPorts)
    } else {
        Ok(())
    }
}

/// The input port chosen by a number read from the user, if it names one.
pub fn input_choice(choice: Option<usize>, available: usize) -> (r: Option<usize>)
    ensures
        r == match choice {
            Some(i) => if i < available {
                Some(i)
            } else {
                None::<usize>
            },
            None => None,
        },
{
    match choice {
        Some(i) => if i < available {
            Some(i)
        } else {
            None
        },
        None => None,
    }
}

/// Whether at least `min` output ports can be chosen among `available`.
pub fn check_output_ports(available: usize, min: usize) -> (r: Result<(), PortsError>)
    ensures
        r == if available == 0 {
            Err::<(), PortsError>(PortsError::NoOutputPorts)
        } else if available < min {
            Err(PortsError::TooFewOutputPorts { min, available })
        } else {
            Ok(())
        },
{
    if available == 0 {
        Err(PortsError::NoOutputPorts)
    } else if available < min {
        Err(PortsError::TooFewOutputPorts { min, available })
    } else {
        Ok(())
    }
}

/// No number occurs twice.
pub open spec fn all_distinct(s: Seq<usize>) -> bool {
    forall|i: int, j: int| 0 <= i < j < s.len() ==> s[i] != s[j]
}

/// The verdict on chosen output ports: first the count, then that each
/// names a port, then that none repeats.
pub open spec fn spec_output_choice(s: Seq<usize>, available: usize, min: usize, max: usize) -> OutputChoice {
    if s.len() < min || s.len() > max {
        OutputChoice::WrongCount { selected: s.len() as usize }
    } else if exists|i: int| 0 <= i < s.len() && #[trigger] s[i] >= available {
        OutputChoice::OutOfRange
    } else if !all_distinct(s) {
        OutputChoice::Duplicates
    } else {
        OutputChoice::Accepted
    }
}

/// Checks a list of output port numbers read from the user.
pub fn check_output_choice(indices: &[usize], available: usize, min: usize, max: usize) -> (r: OutputChoice)
    ensures
        r == spec_output_choice(indices@, available, min, max),
{
    let n = indices.len();
    if n < min || n > max {
        return OutputChoice::WrongCount { selected: n };
    }
    let mut i: usize = 0;
    while i < n
        invariant
            n == indices@.len(),
            min <= n <= max,
            i <= n,
            forall|k: int| 0 <= k < i ==> #[trigger] indices@[k] < available,
        decreases n - i,
    {
        if indices[i] >= available {
            assert(indices@[i as int] >= available);
            return OutputChoice::OutOfRange;
        }
        i = i + 1;
    }
    let mut a: usize = 0;
    while a < n
        invariant
            n == indices@.len(),
            min <= n <= max,
            a <= n,
            forall|k: int| 0 <= k < n ==> #[trigger] indices@[k] < available,
            forall|x: int, y: int| 0 <= x < a && x < y < n ==> indices@[x] != indices@[y],
        decreases n - a,
    {
        let mut b: usize = a + 1;
        while b < n
            invariant
                n == indices@.len(),
                min <= n <= max,
                forall|k: int| 0 <= k < n ==> #[trigger] indices@[k] < available,
                a < n,
                a + 1 <= b <= n,
                forall|y: int| a < y < b ==> indices@[a as int] != #[trigger] indices@[y],
            decreases n - b,
        {
            if indices[a] == indices[b] {
                assert(!all_distinct(indices@));
                return OutputChoice::Duplicates;
            }
            b = b + 1;
        }
        a = a + 1;
    }
    OutputChoice::Accepted
}

} // verus!
