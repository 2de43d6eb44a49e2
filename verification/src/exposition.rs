//! The store as a metrics document in the text exposition format.
//!
//! The document has three families of gauges, `temperature_c`,
//! `temperature_f` and `humidity`, in this order and with an empty line
//! between them. A family is a `# HELP` line, a `# TYPE` line and one sample
//! line for each reading that has a value for it.

use crate::measure::{round_half_even, Ratio};
use crate::numeral::{digits_of, push_digits, push_tenths, tenths_text};
use crate::reading::{Sample, SampleView};
use crate::store::Store;
use crate::units::value_of;
use vstd::prelude::*;
use vstd::string::*;

verus! {

/// The three families of gauges.
#[derive(Debug, Clone, Copy, PartialEq, Eq, Structural)]
pub enum Family {
    TemperatureC,
    TemperatureF,
    Humidity,
}

impl Family {
    /// The name of the metric.
    pub open spec fn name(self) -> Seq<char> {
        match self {
            Family::TemperatureC => "temperature_c"@,
            Family::TemperatureF => "temperature_f"@,
            Family::Humidity => "humidity"@,
        }
    }

    /// The two lines that open the family.
    pub open spec fn header(self) -> Seq<char> {
        match self {
            Family::TemperatureC => "# HELP temperature_c The temperature in degrees celsius.\n# TYPE temperature_c gauge\n"@,
            Family::TemperatureF => "# HELP temperature_f The temperature in degrees fahrenheit.\n# TYPE temperature_f gauge\n"@,
            Family::Humidity => "# HELP humidity The humidity.\n# TYPE humidity gauge\n"@,
        }
    }

    /// The value that a reading has for the family, if it has one; for the
    /// temperatures, the reported value or the other one converted.
    pub open spec fn value_in(self, sample: SampleView) -> Option<real> {
        match self {
            Family::TemperatureC => sample.celsius(),
            Family::TemperatureF => sample.fahrenheit(),
            Family::Humidity => sample.humidity_value(),
        }
    }

    /// The name of the metric.
    pub fn metric_name(&self) -> (r: &'static str)
        ensures
            r@ == self.name(),
    {
        match self {
            Family::TemperatureC => "temperature_c",
            Family::TemperatureF => "temperature_f",
            Family::Humidity => "humidity",
        }
    }

    /// The two lines that open the family.
    pub fn header_text(&self) -> (r: &'static str)
        ensures
            r@ == self.header(),
    {
        match self {
            Family::TemperatureC => "# HELP temperature_c The temperature in degrees celsius.\n# TYPE temperature_c gauge\n",
            Family::TemperatureF => "# HELP temperature_f The temperature in degrees fahrenheit.\n# TYPE temperature_f gauge\n",
            Family::Humidity => "# HELP humidity The humidity.\n# TYPE humidity gauge\n",
        }
    }

    /// The value that a reading has for the family, if it has one.
    pub fn value_of_sample(&self, sample: &Sample) -> (r: Option<Ratio>)
        ensures
            value_of(r) == self.value_in(sample@),
    {
        match self {
            Family::TemperatureC => sample.temp_c(),
            Family::TemperatureF => sample.temp_f(),
            Family::Humidity => sample.humidity(),
        }
    }
}

/// The number that a label shows for the instance: the instance number, or
/// zero where the device has none.
pub open spec fn shown_id(id: Option<u32>) -> nat {
    match id {
        Some(id) => id as nat,
        None => 0,
    }
}

/// The label set of a reading: `{model="<model>", id="<id>"}`.
pub open spec fn label_text(sample: SampleView) -> Seq<char> {
    "{model=\""@ + sample.model + "\", id=\""@ + digits_of(shown_id(sample.id)) + "\"}"@
}

/// A value as a sample line shows it: rounded to one decimal place, a tie
/// going to the even digit.
pub open spec fn value_text(value: real) -> Seq<char> {
    tenths_text(round_half_even(value * 10real))
}

/// One sample line: the metric's name, the labels, the value and the time
/// in milliseconds, then a line feed.
pub open spec fn sample_line(family: Family, sample: SampleView, value: real) -> Seq<char> {
    family.name() + label_text(sample) + " "@ + value_text(value) + " "@ + digits_of(
        sample.ts as nat,
    ) + "\n"@
}

/// The line of one reading in a family; nothing where the reading has no
/// value for it.
pub open spec fn sample_text(family: Family, sample: SampleView) -> Seq<char> {
    match family.value_in(sample) {
        Some(value) => sample_line(family, sample, value),
        None => Seq::empty(),
    }
}

/// The sample lines of a family, one for each reading that has a value for
/// it, in the order of the readings.
pub open spec fn sample_lines(family: Family, entries: Seq<SampleView>) -> Seq<char>
    decreases entries.len(),
{
    if entries.len() == 0 {
        Seq::empty()
    } else {
        sample_lines(family, entries.drop_last()) + sample_text(family, entries.last())
    }
}

/// A family: its header, then its sample lines.
pub open spec fn family_text(family: Family, entries: Seq<SampleView>) -> Seq<char> {
    family.header() + sample_lines(family, entries)
}

/// The whole document.
pub open spec fn exposition(entries: Seq<SampleView>) -> Seq<char> {
    family_text(Family::TemperatureC, entries) + "\n"@ + family_text(Family::TemperatureF, entries)
        + "\n"@ + family_text(Family::Humidity, entries)
}

/// A reading of a device without an instance number shows `id="0"`.
pub proof fn lemma_absent_id_shows_zero(sample: SampleView)
    requires
        sample.id is None,
    ensures
        label_text(sample) == "{model=\""@ + sample.model + "\", id=\"0\"}"@,
{
    reveal_strlit("\", id=\"");
    reveal_strlit("\"}");
    reveal_strlit("\", id=\"0\"}");
    assert(digits_of(0) =~= seq!['0']);
    assert(label_text(sample) =~= "{model=\""@ + sample.model + "\", id=\"0\"}"@);
}

/// A reading that reports both temperatures shows each as reported: neither
/// is converted from the other or held against it.
pub proof fn lemma_reported_values_are_shown(sample: SampleView)
    requires
        sample.temp_c is Some,
        sample.temp_f is Some,
    ensures
        sample_text(Family::TemperatureC, sample) == sample_line(
            Family::TemperatureC,
            sample,
            sample.temp_c.unwrap().value(),
        ),
        sample_text(Family::TemperatureF, sample) == sample_line(
            Family::TemperatureF,
            sample,
            sample.temp_f.unwrap().value(),
        ),
{
}

/// The document of an empty store: the three headers, an empty line between
/// them, and no sample line.
pub proof fn lemma_empty_exposition()
    ensures
        exposition(Seq::empty()) == Family::TemperatureC.header() + "\n"@
            + Family::TemperatureF.header() + "\n"@ + Family::Humidity.header(),
        forall|family: Family| sample_lines(family, Seq::empty()) == Seq::<char>::empty(),
{
    let none = Seq::<SampleView>::empty();
    assert forall|family: Family| sample_lines(family, none) == Seq::<char>::empty() by {}
    assert(exposition(none) =~= Family::TemperatureC.header() + "\n"@
        + Family::TemperatureF.header() + "\n"@ + Family::Humidity.header());
}

/// Appends the label set of a reading.
fn push_labels(out: &mut String, sample: &Sample)
    ensures
        final(out)@ == old(out)@ + label_text(sample@),
{
    out.append("{model=\"");
    out.append(sample.model().as_str());
    out.append("\", id=\"");
    let id: u32 = match sample.id() {
        Some(id) => id,
        None => 0,
    };
    push_digits(out, id as u128);
    out.append("\"}");
    assert(final(out)@ =~= old(out)@ + label_text(sample@));
}

/// Appends the line of one reading in a family, if the reading has a value
/// for it.
fn push_sample(out: &mut String, family: Family, sample: &Sample)
    ensures
        final(out)@ == old(out)@ + sample_text(family, sample@),
{
    match family.value_of_sample(sample) {
        Some(value) => {
            out.append(family.metric_name());
            push_labels(out, sample);
            out.append(" ");
            push_tenths(out, value.tenths());
            out.append(" ");
            push_digits(out, sample.ts());
            out.append("\n");
            assert(final(out)@ =~= old(out)@ + sample_line(family, sample@, value.value()));
        },
        None => {
            assert(final(out)@ =~= old(out)@ + Seq::<char>::empty());
        },
    }
}

/// Appends a family: its header, then its sample lines.
fn push_family(out: &mut String, family: Family, samples: &Vec<Sample>)
    ensures
        final(out)@ == old(out)@ + family_text(family, samples.deep_view()),
{
    out.append(family.header_text());
    let ghost entries = samples.deep_view();
    let mut i: usize = 0;
    assert(entries.take(0) =~= Seq::<SampleView>::empty());
    assert(out@ =~= old(out)@ + family.header() + sample_lines(family, entries.take(0)));
    while i < samples.len()
        invariant
            i <= samples.len(),
            entries == samples.deep_view(),
            out@ == old(out)@ + family.header() + sample_lines(family, entries.take(i as int)),
        decreases samples.len() - i,
    {
        let ghost before = out@;
        push_sample(out, family, &samples[i]);
        proof {
            let next = entries.take(i + 1);
            assert(next.drop_last() =~= entries.take(i as int));
            assert(next.last() == samples[i as int]@);
            assert(out@ =~= old(out)@ + family.header() + sample_lines(family, next));
        }
        i = i + 1;
    }
    assert(entries.take(i as int) =~= entries);
    assert(out@ =~= old(out)@ + family_text(family, entries));
}

/// Writes the readings as a metrics document.
pub fn render(samples: &Vec<Sample>) -> (r: String)
    ensures
        r@ == exposition(samples.deep_view()),
{
    let mut out = String::new();
    push_family(&mut out, Family::TemperatureC, samples);
    out.append("\n");
    push_family(&mut out, Family::TemperatureF, samples);
    out.append("\n");
    push_family(&mut out, Family::Humidity, samples);
    assert(out@ =~= exposition(samples.deep_view()));
    out
}

/// Writes what the store holds as a metrics document.
pub fn metrics(store: &Store) -> (r: String)
    ensures
        r@ == exposition(store@),
{
    render(store.entries())
}

} // verus!
