//! Serialization of the gauge store into the text exposition format.
//!
//! Each sample becomes one line: the metric name, the label list in braces
//! when it is non-empty, a space, the rendered value, and a newline.  The
//! lines appear in storage order, so the same store always renders to the
//! same text.

use crate::numfmt::{i128_string, seconds_string, spec_dec, spec_dec_int, spec_seconds,
    u128_string};
use crate::registry::{MetricRegistry, MetricSample, MetricValue, SampleModel};
use vstd::prelude::*;
use vstd::string::StringExecFns;

verus! {

/// The text of one gauge value.
pub open spec fn spec_value_text(v: MetricValue) -> Seq<char> {
    match v {
        MetricValue::Whole(n) => spec_dec(n as nat),
        MetricValue::Signed(n) => spec_dec_int(n as int),
        MetricValue::Seconds { nanos } => spec_seconds(nanos as int),
    }
}

/// The text of one label: `name="value"`.
pub open spec fn spec_label_text(l: (Seq<char>, Seq<char>)) -> Seq<char> {
    l.0 + seq!['=', '"'] + l.1 + seq!['"']
}

/// The text of every label after the first, each preceded by a comma.
pub open spec fn spec_label_tail(ls: Seq<(Seq<char>, Seq<char>)>) -> Seq<char>
    decreases ls.len(),
{
    if ls.len() == 0 {
        Seq::<char>::empty()
    } else {
        seq![','] + spec_label_text(ls[0]) + spec_label_tail(ls.drop_first())
    }
}

/// The text of a label list: empty when there are no labels, else the
/// comma-separated labels in braces.
pub open spec fn spec_labels_text(ls: Seq<(Seq<char>, Seq<char>)>) -> Seq<char> {
    if ls.len() == 0 {
        Seq::<char>::empty()
    } else {
        seq!['{'] + spec_label_text(ls[0]) + spec_label_tail(ls.drop_first()) + seq!['}']
    }
}

/// The full line of one sample, newline-terminated.
pub open spec fn spec_line(m: SampleModel) -> Seq<char> {
    m.name + spec_labels_text(m.labels) + seq![' '] + spec_value_text(m.value) + seq!['\n']
}

/// The rendered text of a whole store: the line of every sample, in order.
pub open spec fn spec_render(s: Seq<SampleModel>) -> Seq<char>
    decreases s.len(),
{
    if s.len() == 0 {
        Seq::<char>::empty()
    } else {
        spec_line(s[0]) + spec_render(s.drop_first())
    }
}

/// The rendered value of one gauge.
pub fn value_string(v: &MetricValue) -> (s: String)
    ensures
        s@ == spec_value_text(*v),
{
    match v {
        MetricValue::Whole(n) => u128_string(*n as u128),
        MetricValue::Signed(n) => i128_string(*n as i128),
        MetricValue::Seconds { nanos } => seconds_string(*nanos),
    }
}

/// Appends `name="value"` for one label.
fn append_label(out: &mut String, name: &String, value: &String)
    ensures
        final(out)@ == old(out)@ + spec_label_text((name@, value@)),
{
    out.append(name.as_str());
    out.append("=\"");
    out.append(value.as_str());
    out.append("\"");
    proof {
        reveal_strlit("=\"");
        reveal_strlit("\"");
        assert(out@ =~= old(out)@ + spec_label_text((name@, value@)));
    }
}

/// Appends the label list of one sample.
#[verifier::loop_isolation(false)]
fn append_labels(out: &mut String, labels: &Vec<(String, String)>)
    ensures
        final(out)@ == old(out)@ + spec_labels_text(crate::registry::label_views(labels@)),
{
    let ghost ls = crate::registry::label_views(labels@);
    if labels.len() == 0 {
        proof {
            assert(out@ =~= old(out)@ + spec_labels_text(ls));
        }
        return ;
    }
    out.append("{");
    proof {
        reveal_strlit("{");
    }
    append_label(out, &labels[0].0, &labels[0].1);
    proof {
        assert(ls[0] == (labels@[0].0@, labels@[0].1@));
    }
    let n = labels.len();
    for i in 1..n
        invariant
            out@ + spec_label_tail(ls.skip(i as int)) == old(out)@ + seq!['{'] + spec_label_text(
                ls[0],
            ) + spec_label_tail(ls.skip(1)),
    {
        proof {
            assert(ls[i as int] == (labels@[i as int].0@, labels@[i as int].1@));
            assert(ls.skip(i as int).drop_first() =~= ls.skip(i + 1));
            assert(ls.skip(i as int)[0] == ls[i as int]);
        }
        out.append(",");
        proof {
            reveal_strlit(",");
        }
        append_label(out, &labels[i].0, &labels[i].1);
    }
    out.append("}");
    proof {
        reveal_strlit("}");
        assert(ls.skip(n as int) =~= Seq::<(Seq<char>, Seq<char>)>::empty());
        assert(out@ =~= old(out)@ + spec_labels_text(ls));
    }
}

/// Appends the full line of one sample.
fn append_line(out: &mut String, sample: &MetricSample)
    ensures
        final(out)@ == old(out)@ + spec_line(sample.model()),
{
    out.append(sample.name.as_str());
    append_labels(out, &sample.labels);
    out.append(" ");
    let value = value_string(&sample.value);
    out.append(value.as_str());
    out.append("\n");
    proof {
        reveal_strlit(" ");
        reveal_strlit("\n");
        assert(out@ =~= old(out)@ + spec_line(sample.model()));
    }
}

impl MetricRegistry {
    /// The text exposition of the whole store.  Rendering is total: with
    /// numeric values and loop-free lines there is no encoding failure to
    /// surface.
    #[verifier::loop_isolation(false)]
    pub fn render(&self) -> (r: String)
        ensures
            r@ == spec_render(self@),
    {
        let mut out = String::new();
        let samples = self.samples();
        let n = samples.len();
        proof {
            assert(self@.skip(0) =~= self@);
            assert(out@ + spec_render(self@) =~= spec_render(self@));
        }
        for i in 0..n
            invariant
                out@ + spec_render(self@.skip(i as int)) == spec_render(self@),
        {
            proof {
                assert(self@.skip(i as int).drop_first() =~= self@.skip(i + 1));
                assert(self@.skip(i as int)[0] == self@[i as int]);
                assert(samples@[i as int].model() == self@[i as int]);
            }
            append_line(&mut out, &samples[i]);
        }
        proof {
            assert(self@.skip(n as int) =~= Seq::<SampleModel>::empty());
        }
        out
    }
}

} // verus!
