//! Work that can be called off.

use vstd::prelude::*;

verus! {

/// What became of work that can be called off.
pub enum CancelableResult<T> {
    Result(T),
    Cancelled,
}

/// How far work has come when it is looked at.
pub enum Progress<T> {
    /// It gave this.
    Ready(T),
    /// It has nothing more to give.
    Ended,
    /// It is not there yet.
    Pending,
}

/// What is to be said of work, given whether it was called off and how far it has come.
pub open spec fn settled<T>(cancelled: bool, progress: Progress<T>) -> Progress<
    CancelableResult<T>,
> {
    match progress {
        _ if cancelled => Progress::Ready(CancelableResult::Cancelled),
        Progress::Ready(value) => Progress::Ready(CancelableResult::Result(value)),
        Progress::Ended => Progress::Ended,
        Progress::Pending => Progress::Pending,
    }
}

/// Work that was called off says so at once, whatever it came to, and any other work goes on as if
/// nobody could call it off: what it gives is what it gave.
pub proof fn law_only_work_called_off_is_cancelled<T>(progress: Progress<T>, value: T)
    ensures
        settled(true, progress) == Progress::Ready(CancelableResult::<T>::Cancelled),
        settled(false, progress) != Progress::Ready(CancelableResult::<T>::Cancelled),
        settled(false, Progress::Ready(value)) == Progress::Ready(CancelableResult::Result(value)),
        settled(false, progress) is Pending <==> progress is Pending,
        settled(false, progress) is Ended <==> progress is Ended,
{
}

/// Whether work was called off.
#[derive(Debug, Clone, Copy, PartialEq, Eq, Structural)]
pub struct Cancelable {
    cancelled: bool,
}

impl Cancelable {
    pub closed spec fn cancelled(&self) -> bool {
        self.cancelled
    }

    /// Work that was not called off.
    pub fn new() -> (work: Self)
        ensures
            !work.cancelled(),
    {
        Cancelable { cancelled: false }
    }

    /// Calls the work off.
    pub fn cancel(&mut self)
        ensures
            final(self).cancelled(),
    {
        self.cancelled = true;
    }

    /// Whether the work is to be looked at: not where it was called off.
    pub fn is_live(&self) -> (live: bool)
        ensures
            live == !self.cancelled(),
    {
        !self.cancelled
    }

    /// What is to be said of the work, given how far it has come.
    pub fn settle<T>(&self, progress: Progress<T>) -> (settled: Progress<CancelableResult<T>>)
        ensures
            settled == (if self.cancelled() {
                Progress::Ready(CancelableResult::Cancelled)
            } else {
                match progress {
                    Progress::Ready(value) => Progress::Ready(CancelableResult::Result(value)),
                    Progress::Ended => Progress::Ended,
                    Progress::Pending => Progress::Pending,
                }
            }),
            settled == self::settled(self.cancelled(), progress),
    {
        if self.cancelled {
            return Progress::Ready(CancelableResult::Cancelled);
        }
        match progress {
            Progress::Ready(value) => Progress::Ready(CancelableResult::Result(value)),
            Progress::Ended => Progress::Ended,
            Progress::Pending => Progress::Pending,
        }
    }
}

} // verus!
