//! Diagnostic and verification substrate for a freestanding execution
//! environment: a text console model with scrolling and sanitization, the
//! self-test harness that reports per-probe status over the serial channel,
//! the dual-mode fault pathway's report, and the host exit signal codes.
//!
//! The hardware edges — the memory-mapped display, the serial port, the exit
//! port, halting and interrupt masking — live outside the library; they carry
//! the values computed and proved here to the machine.

use vstd::prelude::*;
use vstd::string::StringExecFns;

pub mod decimal;
pub mod vga_buffer;

use crate::decimal::dec_spec;
use crate::decimal::usize_to_string;

verus! {

/// The code written to the host's diagnostic port when execution concludes.
#[derive(Clone, Copy, Debug, PartialEq, Eq, Structural)]
pub enum QemuExitCode {
    Success,
    Failed,
}

impl QemuExitCode {
    /// The numeric value carried on the wire: 0x10 for success, 0x11 for failure.
    pub open spec fn spec_code(self) -> u32 {
        match self {
            QemuExitCode::Success => 0x10,
            QemuExitCode::Failed => 0x11,
        }
    }

    pub fn code(self) -> (r: u32)
        ensures
            r == self.spec_code(),
    {
        match self {
            QemuExitCode::Success => 0x10,
            QemuExitCode::Failed => 0x11,
        }
    }
}

/// A zero-argument probe the harness can invoke. A probe either returns
/// normally or diverts into the fault pathway; it never reports a result.
pub trait Testable {
    fn run(&self);
}

/// The harness's opening line: the probe count announcement.
pub open spec fn header_spec(n: nat) -> Seq<char> {
    "Running "@ + dec_spec(n) + " tests\n"@
}

/// The line announcing one probe, transmitted before it runs.
pub open spec fn start_line_spec(name: Seq<char>) -> Seq<char> {
    name + "...\t"@
}

/// The line transmitted after a probe returns normally.
pub open spec fn ok_line_spec() -> Seq<char> {
    "[ok]\n"@
}

/// The two diagnostic-mode fault lines: the failure marker and the cause.
pub open spec fn fault_report_spec(cause: Seq<char>) -> Seq<char> {
    "[failed]\n\n"@ + "Error: "@ + cause + "\n\n"@
}

/// The per-probe part of a run in which every probe returns normally.
pub open spec fn probe_lines_spec(names: Seq<Seq<char>>) -> Seq<char>
    decreases names.len(),
{
    if names.len() == 0 {
        Seq::empty()
    } else {
        start_line_spec(names[0]) + ok_line_spec() + probe_lines_spec(names.drop_first())
    }
}

/// The whole serial transcript of a run in which every probe returns
/// normally: the count announcement, then each probe's lines in order.
pub open spec fn transcript_spec(names: Seq<Seq<char>>) -> Seq<char> {
    header_spec(names.len()) + probe_lines_spec(names)
}

/// Builds the harness's opening line.
pub fn header_line(n: usize) -> (s: String)
    ensures
        s@ == header_spec(n as nat),
{
    let mut s = String::from_str("Running ");
    let num = usize_to_string(n);
    s.append(num.as_str());
    s.append(" tests\n");
    proof {
        assert(s@ =~= header_spec(n as nat));
    }
    s
}

/// Builds the announcement line for one probe.
pub fn start_line(name: &str) -> (s: String)
    ensures
        s@ == start_line_spec(name@),
{
    let mut s = String::from_str(name);
    s.append("...\t");
    s
}

/// Builds the line acknowledging a probe that returned normally.
pub fn ok_line() -> (s: String)
    ensures
        s@ == ok_line_spec(),
{
    String::from_str("[ok]\n")
}

/// The diagnostic-mode fault pathway's observable half: the two lines to
/// transmit and the failure code to signal. The caller transmits, signals,
/// and halts; nothing resumes after it.
pub fn fault_report(cause: &str) -> (r: (String, QemuExitCode))
    ensures
        r.0@ == fault_report_spec(cause@),
        r.1 == QemuExitCode::Failed,
{
    let mut s = String::from_str("[failed]\n\n");
    s.append("Error: ");
    s.append(cause);
    s.append("\n\n");
    proof {
        assert(s@ =~= fault_report_spec(cause@));
    }
    (s, QemuExitCode::Failed)
}

/// The harness's state between steps of a run.
pub ghost struct HarnessView {
    /// The display names of the registered probes, in run order.
    pub names: Seq<Seq<char>>,
    /// How many probes have finished.
    pub next: int,
    /// Whether a probe has been announced but has not yet returned.
    pub running: bool,
}

/// The self-test harness: walks the registered probes in order, hands out
/// the serial lines to transmit, and issues the success outcome only when
/// every probe has finished. The invocation of a probe itself is outside
/// work; the driver performs it between `start_next` and `probe_passed`,
/// and on a probe that does not return it diverts to `fault_report` and
/// never comes back for an outcome.
pub struct Harness {
    names: Vec<String>,
    next: usize,
    running: bool,
}

impl View for Harness {
    type V = HarnessView;

    closed spec fn view(&self) -> HarnessView {
        HarnessView {
            names: self.names.deep_view(),
            next: self.next as int,
            running: self.running,
        }
    }
}

impl Harness {
    pub open spec fn wf(self) -> bool {
        &&& 0 <= self@.next <= self@.names.len()
        &&& (self@.running ==> self@.next < self@.names.len())
    }

    /// Begins a run over the named probes; hands back the count
    /// announcement to transmit first.
    pub fn new(names: Vec<String>) -> (r: (Harness, String))
        ensures
            r.0.wf(),
            r.0@.names == names.deep_view(),
            r.0@.next == 0,
            !r.0@.running,
            r.1@ == header_spec(names.deep_view().len()),
    {
        let n = names.len();
        let header = header_line(n);
        proof {
            assert(names.deep_view().len() == names@.len());
        }
        (Harness { names, next: 0, running: false }, header)
    }

    /// How many probes have not yet finished.
    pub fn remaining(&self) -> (n: usize)
        requires
            self.wf(),
        ensures
            n as int == self@.names.len() - self@.next,
    {
        proof {
            assert(self@.names.len() == self.names@.len());
        }
        self.names.len() - self.next
    }

    /// Announces the next probe: hands back its announcement line and marks
    /// it running. The driver transmits the line, then invokes the probe.
    pub fn start_next(&mut self) -> (line: String)
        requires
            old(self).wf(),
            !old(self)@.running,
            old(self)@.next < old(self)@.names.len(),
        ensures
            final(self).wf(),
            final(self)@.names == old(self)@.names,
            final(self)@.next == old(self)@.next,
            final(self)@.running,
            line@ == start_line_spec(old(self)@.names[old(self)@.next]),
    {
        proof {
            assert(self@.names.len() == self.names@.len());
            assert(self@.names[self.next as int] == self.names@[self.next as int]@);
        }
        let line = start_line(self.names[self.next].as_str());
        self.running = true;
        line
    }

    /// Records that the running probe returned normally: hands back the
    /// acknowledgment line and moves on to the next probe.
    pub fn probe_passed(&mut self) -> (line: String)
        requires
            old(self).wf(),
            old(self)@.running,
        ensures
            final(self).wf(),
            final(self)@.names == old(self)@.names,
            final(self)@.next == old(self)@.next + 1,
            !final(self)@.running,
            line@ == ok_line_spec(),
    {
        proof {
            assert(self@.names.len() == self.names@.len());
        }
        let count = self.names.len();
        self.running = false;
        self.next = self.next + 1;
        proof {
            assert(self.next <= count);
        }
        ok_line()
    }

    /// The run's conclusion: the success code exactly when every probe has
    /// finished, and nothing before that.
    pub fn outcome(&self) -> (r: Option<QemuExitCode>)
        requires
            self.wf(),
        ensures
            r == (if self@.next == self@.names.len() && !self@.running {
                Some(QemuExitCode::Success)
            } else {
                None::<QemuExitCode>
            }),
    {
        proof {
            assert(self@.names.len() == self.names@.len());
        }
        if !self.running && self.next == self.names.len() {
            Some(QemuExitCode::Success)
        } else {
            None
        }
    }
}

/// Splitting a run's remaining lines at the next probe.
proof fn lemma_probe_lines_skip(names: Seq<Seq<char>>, i: int)
    requires
        0 <= i < names.len(),
    ensures
        probe_lines_spec(names.skip(i)) == start_line_spec(names[i]) + ok_line_spec()
            + probe_lines_spec(names.skip(i + 1)),
{
    assert(names.skip(i).len() == names.len() - i);
    assert(names.skip(i)[0] == names[i]);
    assert(names.skip(i).drop_first() =~= names.skip(i + 1));
}

/// Runs the harness over probes that all return normally: announces the
/// count, walks every probe in order, and concludes with the success code.
/// The result is the exact serial transcript of such a run.
pub fn test_runner(tests: &Vec<String>) -> (r: (String, QemuExitCode))
    ensures
        r.0@ == transcript_spec(tests.deep_view()),
        r.1 == QemuExitCode::Success,
{
    let ghost all = tests.deep_view();
    let mut out = header_line(tests.len());
    proof {
        assert(all.len() == tests@.len());
        assert(all.skip(0) =~= all);
        assert(out@ + probe_lines_spec(all) =~= transcript_spec(all));
    }
    let mut i: usize = 0;
    while i < tests.len()
        invariant
            i <= tests@.len(),
            all == tests.deep_view(),
            all.len() == tests@.len(),
            out@ + probe_lines_spec(all.skip(i as int)) == transcript_spec(all),
        decreases tests@.len() - i,
    {
        proof {
            assert(all[i as int] == tests@[i as int]@);
        }
        let line = start_line(tests[i].as_str());
        out.append(line.as_str());
        let ok = ok_line();
        out.append(ok.as_str());
        proof {
            lemma_probe_lines_skip(all, i as int);
            assert(out@ + probe_lines_spec(all.skip(i as int + 1)) =~= transcript_spec(all));
        }
        i = i + 1;
    }
    proof {
        assert(all.skip(i as int) =~= Seq::<Seq<char>>::empty());
        assert(out@ =~= transcript_spec(all));
    }
    (out, QemuExitCode::Success)
}

} // verus!

