//! The latest connection statistics, kept for a consumer that polls.

use crate::json::{json_text, lemma_merged_distinct, object_of, Fields, Json};
use crate::table::{distinct_keys, lemma_lookup_absent, lemma_lookup_at, lookup};
use crate::text::opt_text;
use vstd::prelude::*;

verus! {

/// Statistics as the connection reports them; each report fills some of the fields.
pub struct QualityStatus {
    pub speed: Option<String>,
    /// Frames per second by display, in the order of the report.
    pub fps: Vec<(usize, i32)>,
    pub delay: Option<i32>,
    pub target_bitrate: Option<i32>,
    pub codec_format: Option<String>,
    pub chroma: Option<String>,
}

/// The latest known value of each statistic.
pub struct HeadlessQualityStatus {
    pub speed: Option<String>,
    pub fps: Option<i32>,
    pub delay: Option<i32>,
    pub target_bitrate: Option<i32>,
    pub codec_format: Option<String>,
}

/// What is known of the connection.
pub struct QualityView {
    pub speed: Option<Seq<char>>,
    pub fps: Option<i32>,
    pub delay: Option<i32>,
    pub target_bitrate: Option<i32>,
    pub codec_format: Option<Seq<char>>,
}

impl View for HeadlessQualityStatus {
    type V = QualityView;

    open spec fn view(&self) -> QualityView {
        QualityView {
            speed: opt_text(self.speed),
            fps: self.fps,
            delay: self.delay,
            target_bitrate: self.target_bitrate,
            codec_format: opt_text(self.codec_format),
        }
    }
}

/// What a report says of the statistics that are kept; of several displays the first one counts.
pub open spec fn reported(status: QualityStatus) -> QualityView {
    QualityView {
        speed: opt_text(status.speed),
        fps: if status.fps@.len() > 0 {
            Some(status.fps@[0].1)
        } else {
            None
        },
        delay: status.delay,
        target_bitrate: status.target_bitrate,
        codec_format: opt_text(status.codec_format),
    }
}

/// The newer value where there is one, else the older value.
pub open spec fn newer<T>(old_value: Option<T>, new_value: Option<T>) -> Option<T> {
    if new_value is Some {
        new_value
    } else {
        old_value
    }
}

impl QualityView {
    /// Nothing is known.
    pub open spec fn unknown() -> QualityView {
        QualityView {
            speed: None,
            fps: None,
            delay: None,
            target_bitrate: None,
            codec_format: None,
        }
    }

    /// A report came: each field that it fills is replaced, every other field stays.
    pub open spec fn updated(self, report: QualityView) -> QualityView {
        QualityView {
            speed: newer(self.speed, report.speed),
            fps: newer(self.fps, report.fps),
            delay: newer(self.delay, report.delay),
            target_bitrate: newer(self.target_bitrate, report.target_bitrate),
            codec_format: newer(self.codec_format, report.codec_format),
        }
    }

    /// The fields of the JSON object: the known ones, in a fixed order.
    pub open spec fn fields(self) -> Seq<(Seq<char>, Json)> {
        text_member("speed"@, self.speed) + integer_member("fps"@, self.fps) + integer_member(
            "delay"@,
            self.delay,
        ) + integer_member("target_bitrate"@, self.target_bitrate) + text_member(
            "codec_format"@,
            self.codec_format,
        )
    }
}

/// A text field, where there is a text.
pub open spec fn text_member(key: Seq<char>, text: Option<Seq<char>>) -> Seq<(Seq<char>, Json)> {
    match text {
        Some(t) => seq![(key, Json::Text(t))],
        None => Seq::empty(),
    }
}

/// An integer field, where there is a number.
pub open spec fn integer_member(key: Seq<char>, n: Option<i32>) -> Seq<(Seq<char>, Json)> {
    match n {
        Some(x) => seq![(key, Json::Integer(x as int))],
        None => Seq::empty(),
    }
}

impl HeadlessQualityStatus {
    pub fn new() -> (status: HeadlessQualityStatus)
        ensures
            status@ == QualityView::unknown(),
    {
        HeadlessQualityStatus {
            speed: None,
            fps: None,
            delay: None,
            target_bitrate: None,
            codec_format: None,
        }
    }
}

/// Merges a report into what is known.
pub fn push_headless_quality_status(state: &mut HeadlessQualityStatus, status: &QualityStatus)
    ensures
        final(state)@ == old(state)@.updated(reported(*status)),
{
    if let Some(speed) = &status.speed {
        state.speed = Some(speed.clone());
    }
    if status.fps.len() > 0 {
        state.fps = Some(status.fps[0].1);
    }
    if status.delay.is_some() {
        state.delay = status.delay;
    }
    if status.target_bitrate.is_some() {
        state.target_bitrate = status.target_bitrate;
    }
    if let Some(codec_format) = &status.codec_format {
        state.codec_format = Some(codec_format.clone());
    }
}

fn with_text_member(fields: Fields, key: &str, text: &Option<String>) -> (longer: Fields)
    ensures
        longer@ == fields@ + text_member(key@, opt_text(*text)),
{
    let longer = match text {
        Some(t) => fields.text(key, t.as_str()),
        None => fields,
    };
    assert(longer@ =~= fields@ + text_member(key@, opt_text(*text)));
    longer
}

fn with_integer_member(fields: Fields, key: &str, n: Option<i32>) -> (longer: Fields)
    ensures
        longer@ == fields@ + integer_member(key@, n),
{
    let longer = match n {
        Some(x) => fields.integer(key, x as i64),
        None => fields,
    };
    assert(longer@ =~= fields@ + integer_member(key@, n));
    longer
}

/// The latest statistics as a JSON object. What is not known is left out.
pub fn take_headless_quality_status(state: &HeadlessQualityStatus) -> (text: String)
    ensures
        text@ == json_text(Json::Object(state@.fields())),
        state@ == QualityView::unknown() ==> text@ == "{}"@,
{
    let fields = with_text_member(Fields::new(), "speed", &state.speed);
    let fields = with_integer_member(fields, "fps", state.fps);
    let fields = with_integer_member(fields, "delay", state.delay);
    let fields = with_integer_member(fields, "target_bitrate", state.target_bitrate);
    let fields = with_text_member(fields, "codec_format", &state.codec_format);
    assert(fields@ =~= state@.fields());
    proof {
        lemma_layout(state@);
    }
    fields.print()
}

/// A report leaves alone whatever it does not fill, so that two sources can fill different fields
/// in turn.
pub proof fn lemma_updates_of_other_fields_stay(state: QualityView, a: QualityView, b: QualityView)
    requires
        a.speed is None || b.speed is None,
        a.fps is None || b.fps is None,
        a.delay is None || b.delay is None,
        a.target_bitrate is None || b.target_bitrate is None,
        a.codec_format is None || b.codec_format is None,
    ensures
        state.updated(a).updated(b) == state.updated(b).updated(a),
        state.updated(a).updated(b) == state.updated(a.updated(b)),
{
}

/// The object has exactly the known fields, in their fixed order.
pub proof fn lemma_layout(state: QualityView)
    ensures
        object_of(state.fields()) == Json::Object(state.fields()),
{
    reveal_strlit("speed");
    reveal_strlit("fps");
    reveal_strlit("delay");
    reveal_strlit("target_bitrate");
    reveal_strlit("codec_format");
    assert("speed"@.len() == 5 && "fps"@.len() == 3 && "delay"@.len() == 5);
    assert("target_bitrate"@.len() == 14 && "codec_format"@.len() == 12);
    assert("speed"@[0] == 's' && "delay"@[0] == 'd');
    assert(distinct_keys(state.fields()));
    lemma_merged_distinct(state.fields());
}

/// A field is written exactly when it is known.
pub proof fn lemma_unknown_fields_are_left_out(state: QualityView)
    ensures
        state.fields().len() == 0 <==> state == QualityView::unknown(),
        forall|i: int|
            0 <= i < state.fields().len() ==> !((#[trigger] state.fields()[i]).1 is Null),
{
}

/// The latest value counts: a report replaces each statistic that it fills, whatever was known of it
/// before, and keeps each one that it does not fill.
pub proof fn lemma_latest_value_counts(state: QualityView, report: QualityView)
    ensures
        report.speed is Some ==> state.updated(report).speed == report.speed,
        report.speed is None ==> state.updated(report).speed == state.speed,
        report.fps is Some ==> state.updated(report).fps == report.fps,
        report.fps is None ==> state.updated(report).fps == state.fps,
        report.delay is Some ==> state.updated(report).delay == report.delay,
        report.delay is None ==> state.updated(report).delay == state.delay,
        report.target_bitrate is Some ==> state.updated(report).target_bitrate
            == report.target_bitrate,
        report.target_bitrate is None ==> state.updated(report).target_bitrate
            == state.target_bitrate,
        report.codec_format is Some ==> state.updated(report).codec_format == report.codec_format,
        report.codec_format is None ==> state.updated(report).codec_format == state.codec_format,
{
}

/// Of two reports in turn the second one counts for what both fill, and a report that came already
/// changes nothing when it comes again.
pub proof fn lemma_reports_in_turn(state: QualityView, first: QualityView, second: QualityView)
    ensures
        state.updated(first).updated(first) == state.updated(first),
        second.delay is Some ==> state.updated(first).updated(second).delay == second.delay,
        second.delay is None && first.delay is Some ==> state.updated(first).updated(second).delay
            == first.delay,
        second.speed is Some ==> state.updated(first).updated(second).speed == second.speed,
        second.speed is None && first.speed is Some ==> state.updated(first).updated(second).speed
            == first.speed,
        second.fps is Some ==> state.updated(first).updated(second).fps == second.fps,
        second.fps is None && first.fps is Some ==> state.updated(first).updated(second).fps
            == first.fps,
{
}

/// What a report fills is what it holds. Of the frames per second the first display counts.
pub proof fn lemma_reported(status: QualityStatus)
    ensures
        match status.speed {
            Some(speed) => reported(status).speed == Some(speed@),
            None => reported(status).speed is None,
        },
        status.fps@.len() > 0 ==> reported(status).fps == Some(status.fps@.first().1),
        status.fps@.len() == 0 ==> reported(status).fps is None,
        reported(status).delay == status.delay,
        reported(status).target_bitrate == status.target_bitrate,
        match status.codec_format {
            Some(codec) => reported(status).codec_format == Some(codec@),
            None => reported(status).codec_format is None,
        },
{
}

/// Each statistic stands in the JSON object under its own name, with its value, exactly when it is
/// known, and the object has no other fields.
pub proof fn lemma_fields_hold_the_statistics(state: QualityView, key: Seq<char>)
    ensures
        lookup(state.fields(), "speed"@) == match state.speed {
            Some(speed) => Some(Json::Text(speed)),
            None => None,
        },
        lookup(state.fields(), "fps"@) == match state.fps {
            Some(fps) => Some(Json::Integer(fps as int)),
            None => None,
        },
        lookup(state.fields(), "delay"@) == match state.delay {
            Some(delay) => Some(Json::Integer(delay as int)),
            None => None,
        },
        lookup(state.fields(), "target_bitrate"@) == match state.target_bitrate {
            Some(bitrate) => Some(Json::Integer(bitrate as int)),
            None => None,
        },
        lookup(state.fields(), "codec_format"@) == match state.codec_format {
            Some(codec) => Some(Json::Text(codec)),
            None => None,
        },
        key != "speed"@ && key != "fps"@ && key != "delay"@ && key != "target_bitrate"@ && key
            != "codec_format"@ ==> lookup(state.fields(), key) is None,
{
    reveal_strlit("speed");
    reveal_strlit("fps");
    reveal_strlit("delay");
    reveal_strlit("target_bitrate");
    reveal_strlit("codec_format");
    assert("speed"@.len() == 5 && "fps"@.len() == 3 && "delay"@.len() == 5);
    assert("target_bitrate"@.len() == 14 && "codec_format"@.len() == 12);
    assert("speed"@[0] == 's' && "delay"@[0] == 'd');
    let f = state.fields();
    assert(distinct_keys(f));
    let a = text_member("speed"@, state.speed);
    let b = integer_member("fps"@, state.fps);
    let c = integer_member("delay"@, state.delay);
    let d = integer_member("target_bitrate"@, state.target_bitrate);
    let e = text_member("codec_format"@, state.codec_format);
    let ab = a + b;
    let abc = ab + c;
    let abcd = abc + d;
    assert(f == abcd + e);
    if state.speed is Some {
        assert(f[0] == a[0]);
        lemma_lookup_at(f, 0);
    }
    if state.fps is Some {
        assert(f[a.len() as int] == b[0]);
        lemma_lookup_at(f, a.len() as int);
    }
    if state.delay is Some {
        assert(f[ab.len() as int] == c[0]);
        lemma_lookup_at(f, ab.len() as int);
    }
    if state.target_bitrate is Some {
        assert(f[abc.len() as int] == d[0]);
        lemma_lookup_at(f, abc.len() as int);
    }
    if state.codec_format is Some {
        assert(f[abcd.len() as int] == e[0]);
        lemma_lookup_at(f, abcd.len() as int);
    }
    lemma_lookup_absent(f, "speed"@);
    lemma_lookup_absent(f, "fps"@);
    lemma_lookup_absent(f, "delay"@);
    lemma_lookup_absent(f, "target_bitrate"@);
    lemma_lookup_absent(f, "codec_format"@);
    lemma_lookup_absent(f, key);
}

}
