use vstd::prelude::*;

use crate::classify::Disposition;

verus! {

/// Running totals of one scan: files seen, files processed (included or
/// outlined), and files skipped by pattern, as binary and by size.
pub struct ProcessCounter {
    total_files: usize,
    processed_files: usize,
    skipped_by_pattern: usize,
    skipped_binary: usize,
    skipped_size: usize,
}

/// The totals of a counter, in field order.
pub struct CounterView {
    pub total_files: nat,
    pub processed_files: nat,
    pub skipped_by_pattern: nat,
    pub skipped_binary: nat,
    pub skipped_size: nat,
}

impl View for ProcessCounter {
    type V = CounterView;

    closed spec fn view(&self) -> CounterView {
        CounterView {
            total_files: self.total_files as nat,
            processed_files: self.processed_files as nat,
            skipped_by_pattern: self.skipped_by_pattern as nat,
            skipped_binary: self.skipped_binary as nat,
            skipped_size: self.skipped_size as nat,
        }
    }
}

/// The counter that a file of the given disposition advances.
pub open spec fn counted(c: CounterView, d: Disposition) -> CounterView {
    match d {
        Disposition::Include | Disposition::OmitOutline => CounterView {
            processed_files: c.processed_files + 1,
            ..c
        },
        Disposition::OmitPattern => CounterView { skipped_by_pattern: c.skipped_by_pattern + 1, ..c },
        Disposition::OmitBinary => CounterView { skipped_binary: c.skipped_binary + 1, ..c },
        Disposition::OmitTooLarge => CounterView { skipped_size: c.skipped_size + 1, ..c },
    }
}

impl ProcessCounter {
    /// A counter with every total at zero.
    pub fn new() -> (r: Self)
        ensures
            r@ == (CounterView {
                total_files: 0,
                processed_files: 0,
                skipped_by_pattern: 0,
                skipped_binary: 0,
                skipped_size: 0,
            }),
    {
        ProcessCounter {
            total_files: 0,
            processed_files: 0,
            skipped_by_pattern: 0,
            skipped_binary: 0,
            skipped_size: 0,
        }
    }

    /// Sets the number of files that the scan will go through.
    pub fn set_total_files(&mut self, count: usize)
        ensures
            final(self)@ == (CounterView { total_files: count as nat, ..old(self)@ }),
    {
        self.total_files = count;
    }

    /// Counts one processed file.
    pub fn increment_processed(&mut self)
        requires
            old(self)@.processed_files < usize::MAX,
        ensures
            final(self)@ == (CounterView {
                processed_files: old(self)@.processed_files + 1,
                ..old(self)@
            }),
    {
        self.processed_files = self.processed_files + 1;
    }

    /// Counts one file skipped by pattern.
    pub fn increment_skipped_pattern(&mut self)
        requires
            old(self)@.skipped_by_pattern < usize::MAX,
        ensures
            final(self)@ == (CounterView {
                skipped_by_pattern: old(self)@.skipped_by_pattern + 1,
                ..old(self)@
            }),
    {
        self.skipped_by_pattern = self.skipped_by_pattern + 1;
    }

    /// Counts one file skipped as binary.
    pub fn increment_skipped_binary(&mut self)
        requires
            old(self)@.skipped_binary < usize::MAX,
        ensures
            final(self)@ == (CounterView {
                skipped_binary: old(self)@.skipped_binary + 1,
                ..old(self)@
            }),
    {
        self.skipped_binary = self.skipped_binary + 1;
    }

    /// Counts one file skipped for its size.
    pub fn increment_skipped_size(&mut self)
        requires
            old(self)@.skipped_size < usize::MAX,
        ensures
            final(self)@ == (CounterView { skipped_size: old(self)@.skipped_size + 1, ..old(self)@ }),
    {
        self.skipped_size = self.skipped_size + 1;
    }

    /// Whether one more file of the given disposition can be counted.
    pub open spec fn has_room(&self, d: Disposition) -> bool {
        match d {
            Disposition::Include | Disposition::OmitOutline => self@.processed_files < usize::MAX,
            Disposition::OmitPattern => self@.skipped_by_pattern < usize::MAX,
            Disposition::OmitBinary => self@.skipped_binary < usize::MAX,
            Disposition::OmitTooLarge => self@.skipped_size < usize::MAX,
        }
    }

    /// Whether one more file of the given disposition can be counted (see
    /// `has_room`).
    pub fn can_record(&self, d: Disposition) -> (r: bool)
        ensures
            r == self.has_room(d),
    {
        match d {
            Disposition::Include | Disposition::OmitOutline => self.processed_files < usize::MAX,
            Disposition::OmitPattern => self.skipped_by_pattern < usize::MAX,
            Disposition::OmitBinary => self.skipped_binary < usize::MAX,
            Disposition::OmitTooLarge => self.skipped_size < usize::MAX,
        }
    }

    /// Counts one file under the field that matches its disposition
    /// ("processed" for an included or outlined file).
    pub fn record(&mut self, d: Disposition)
        requires
            old(self).has_room(d),
        ensures
            final(self)@ == counted(old(self)@, d),
    {
        match d {
            Disposition::Include | Disposition::OmitOutline => self.increment_processed(),
            Disposition::OmitPattern => self.increment_skipped_pattern(),
            Disposition::OmitBinary => self.increment_skipped_binary(),
            Disposition::OmitTooLarge => self.increment_skipped_size(),
        }
    }

    /// The number of files that the scan goes through.
    pub fn total_files(&self) -> (r: usize)
        ensures
            r == self@.total_files,
    {
        self.total_files
    }

    /// The number of files included or outlined.
    pub fn processed_files(&self) -> (r: usize)
        ensures
            r == self@.processed_files,
    {
        self.processed_files
    }

    /// The number of files skipped by pattern.
    pub fn skipped_by_pattern(&self) -> (r: usize)
        ensures
            r == self@.skipped_by_pattern,
    {
        self.skipped_by_pattern
    }

    /// The number of files skipped as binary.
    pub fn skipped_binary(&self) -> (r: usize)
        ensures
            r == self@.skipped_binary,
    {
        self.skipped_binary
    }

    /// The number of files skipped for their size.
    pub fn skipped_size(&self) -> (r: usize)
        ensures
            r == self@.skipped_size,
    {
        self.skipped_size
    }

    /// The number of files skipped for any reason.
    pub fn total_skipped(&self) -> (r: u128)
        ensures
            r == self@.skipped_by_pattern + self@.skipped_binary + self@.skipped_size,
    {
        self.skipped_by_pattern as u128 + self.skipped_binary as u128 + self.skipped_size as u128
    }
}

} // verus!
