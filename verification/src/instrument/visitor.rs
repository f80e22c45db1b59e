//! From the fields of spans and log events to labels.

use crate::protocol::labels;
use crate::protocol::labels::Labels;
use vstd::prelude::*;
use vstd::string::*;

verus! {

impl Labels {
    /// Records a signed integer.
    pub fn record_i64(&mut self, field: &str, value: i64)
        requires
            old(self).wf(),
        ensures
            final(self).wf(),
            final(self).ints@ == labels::stored(old(self).ints@, field@, value),
            final(self).strings == old(self).strings,
            final(self).bools == old(self).bools,
            final(self).floats == old(self).floats,
    {
        self.ints.insert(field.to_owned(), value);
    }

    /// Records an unsigned integer: as a signed one where it fits, and else as the
    /// floating-point value `float_bits` next to it.
    pub fn record_u64(&mut self, field: &str, value: u64, float_bits: u64)
        requires
            old(self).wf(),
        ensures
            final(self).wf(),
            final(self).strings == old(self).strings,
            final(self).bools == old(self).bools,
            value <= i64::MAX ==> final(self).floats == old(self).floats && final(self).ints@
                == labels::stored(old(self).ints@, field@, value as i64),
            value > i64::MAX ==> final(self).ints == old(self).ints && final(self).floats@
                == labels::stored(old(self).floats@, field@, float_bits),
    {
        if value <= i64::MAX as u64 {
            self.ints.insert(field.to_owned(), value as i64);
        } else {
            self.floats.insert(field.to_owned(), float_bits);
        }
    }

    /// Records a floating-point value, given by its bit pattern.
    pub fn record_f64(&mut self, field: &str, bits: u64)
        requires
            old(self).wf(),
        ensures
            final(self).wf(),
            final(self).floats@ == labels::stored(old(self).floats@, field@, bits),
            final(self).strings == old(self).strings,
            final(self).ints == old(self).ints,
            final(self).bools == old(self).bools,
    {
        self.floats.insert(field.to_owned(), bits);
    }

    /// Records a truth value.
    pub fn record_bool(&mut self, field: &str, value: bool)
        requires
            old(self).wf(),
        ensures
            final(self).wf(),
            final(self).bools@ == labels::stored(old(self).bools@, field@, value),
            final(self).strings == old(self).strings,
            final(self).ints == old(self).ints,
            final(self).floats == old(self).floats,
    {
        self.bools.insert(field.to_owned(), value);
    }

    /// Records a text.
    pub fn record_str(&mut self, field: &str, value: &str)
        requires
            old(self).wf(),
        ensures
            final(self).wf(),
            exists|s: String|
                s@ == value@ && final(self).strings@ == #[trigger] labels::stored(
                    old(self).strings@,
                    field@,
                    s,
                ),
            final(self).ints == old(self).ints,
            final(self).bools == old(self).bools,
            final(self).floats == old(self).floats,
    {
        let s = value.to_owned();
        let ghost kept = s;
        self.strings.insert(field.to_owned(), s);
        assert(kept@ == value@ && self.strings@ == labels::stored(
            old(self).strings@,
            field@,
            kept,
        ));
    }

    /// Records a value by the text that shows it.
    pub fn record_debug(&mut self, field: &str, shown: String)
        requires
            old(self).wf(),
        ensures
            final(self).wf(),
            final(self).strings@ == labels::stored(old(self).strings@, field@, shown),
            final(self).ints == old(self).ints,
            final(self).bools == old(self).bools,
            final(self).floats == old(self).floats,
    {
        self.strings.insert(field.to_owned(), shown);
    }
}

} // verus!
