//! The event and its parts, with their mathematical views.

use vstd::prelude::*;

verus! {

/// View of a [`StackFrame`].
pub struct FrameView {
    pub function: Option<Seq<char>>,
    pub symbol: Option<Seq<char>>,
    pub abs_path: Option<Seq<char>>,
    pub filename: Option<Seq<char>>,
    pub lineno: Option<u64>,
    pub colno: Option<u64>,
    pub instruction_addr: Option<u64>,
}

/// View of a [`StackTrace`].
pub struct StackTraceView {
    pub frames: Seq<FrameView>,
}

/// View of an [`ExceptionRecord`].
pub struct ExceptionView {
    pub ty: Seq<char>,
    pub value: Option<Seq<char>>,
    pub stacktrace: Option<StackTraceView>,
}

/// View of an [`Event`].
pub struct EventView {
    pub exceptions: Seq<ExceptionView>,
}

/// One frame of a parsed backtrace.
#[derive(Debug, Clone, PartialEq, Eq)]
pub struct StackFrame {
    /// Demangled name of the function.
    pub function: Option<String>,
    /// Symbol as the backtrace printed it, where it differs from `function`.
    pub symbol: Option<String>,
    /// Path of the source file as the backtrace printed it.
    pub abs_path: Option<String>,
    /// Last component of `abs_path`.
    pub filename: Option<String>,
    /// Line in the source file.
    pub lineno: Option<u64>,
    /// Column in the source file.
    pub colno: Option<u64>,
    /// Address of the instruction.
    pub instruction_addr: Option<u64>,
}

/// The frames of one backtrace.
#[derive(Debug, Clone, PartialEq, Eq)]
pub struct StackTrace {
    pub frames: Vec<StackFrame>,
}

/// One error of a cause chain.
#[derive(Debug, Clone, PartialEq, Eq)]
pub struct ExceptionRecord {
    /// Name of the error's type.
    pub ty: String,
    /// The error's rendered message.
    pub value: Option<String>,
    /// Where the error was raised, if that is known.
    pub stacktrace: Option<StackTrace>,
}

/// A structured error event.
#[derive(Debug, Clone, PartialEq, Eq)]
pub struct Event {
    /// The errors of the cause chain, oldest first.
    pub exceptions: Vec<ExceptionRecord>,
}

impl DeepView for StackFrame {
    type V = FrameView;

    open spec fn deep_view(&self) -> FrameView {
        FrameView {
            function: self.function.deep_view(),
            symbol: self.symbol.deep_view(),
            abs_path: self.abs_path.deep_view(),
            filename: self.filename.deep_view(),
            lineno: self.lineno,
            colno: self.colno,
            instruction_addr: self.instruction_addr,
        }
    }
}

impl View for StackFrame {
    type V = FrameView;

    open spec fn view(&self) -> FrameView {
        self.deep_view()
    }
}

impl DeepView for StackTrace {
    type V = StackTraceView;

    open spec fn deep_view(&self) -> StackTraceView {
        StackTraceView { frames: self.frames.deep_view() }
    }
}

impl View for StackTrace {
    type V = StackTraceView;

    open spec fn view(&self) -> StackTraceView {
        self.deep_view()
    }
}

impl DeepView for ExceptionRecord {
    type V = ExceptionView;

    open spec fn deep_view(&self) -> ExceptionView {
        ExceptionView {
            ty: self.ty@,
            value: self.value.deep_view(),
            stacktrace: self.stacktrace.deep_view(),
        }
    }
}

impl View for ExceptionRecord {
    type V = ExceptionView;

    open spec fn view(&self) -> ExceptionView {
        self.deep_view()
    }
}

impl DeepView for Event {
    type V = EventView;

    open spec fn deep_view(&self) -> EventView {
        EventView { exceptions: self.exceptions.deep_view() }
    }
}

impl View for Event {
    type V = EventView;

    open spec fn view(&self) -> EventView {
        self.deep_view()
    }
}

} // verus!
