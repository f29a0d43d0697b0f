use vstd::prelude::*;

verus! {

/// Outcome of one refresh of a metric provider.
#[derive(Clone, Copy, Debug, PartialEq, Eq, Structural)]
pub enum UpdateStatus {
    /// Every tracked value was refreshed.
    All,
    /// Some values were refreshed; the text may be partly stale.
    Partial,
    /// Nothing usable was produced; the text is left as it was.
    Unchanged,
}

impl UpdateStatus {
    /// Whether this outcome asks for the line to be redrawn.
    pub open spec fn needs_redraw(self) -> bool {
        !(self is Unchanged)
    }

    pub fn bool(&self) -> (r: bool)
        ensures
            r == self.needs_redraw(),
    {
        match self {
            UpdateStatus::All | UpdateStatus::Partial => true,
            UpdateStatus::Unchanged => false,
        }
    }
}

impl From<UpdateStatus> for bool {
    fn from(val: UpdateStatus) -> (r: bool)
        ensures
            r == val.needs_redraw(),
    {
        val.bool()
    }
}

impl vstd::std_specs::convert::FromSpecImpl<UpdateStatus> for bool {
    open spec fn obeys_from_spec() -> bool {
        true
    }

    open spec fn from_spec(val: UpdateStatus) -> bool {
        val.needs_redraw()
    }
}

/// A metric provider as the main loop sees it: its current text and how
/// often it wants to run.
pub trait Module {
    /// The text last computed, shown in the line.
    spec fn text(&self) -> Seq<char>;

    /// The cadence, in milliseconds, at which the provider wants to run.
    spec fn interval(&self) -> u64;

    fn get_string(&self) -> (r: &str)
        ensures
            r@ == self.text(),
    ;

    fn update_interval(&self) -> (r: u64)
        ensures
            r == self.interval(),
    ;
}

} // verus!
