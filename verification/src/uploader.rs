//! The upload client: the multipart form of a session upload, the endpoints, the authorisation
//! header and how a failure status becomes an error.

use vstd::prelude::*;
use crate::text::{
    concat_str, decimal_string, decimal_value, lemma_decimal_injective, lemma_decimal_roundtrip, spec_decimal,
};

verus! {

/// Where sessions are uploaded.
pub const INGEST_URL: &'static str = "https://app.crambo.ai/api/ingest/desktop";

/// The server's answer to an upload.
pub struct UploadResponse {
    /// The identifier of the lecture that the upload created.
    pub lecture_id: String,
    /// Its processing status.
    pub status: String,
}

/// Where a file part's bytes come from.
#[derive(Clone, Copy, PartialEq, Eq, Debug)]
pub enum PartSource {
    /// The recorded audio file.
    Audio,
    /// The screenshot file at this position of the given list.
    Screenshot(usize),
}

/// One part of the multipart form.
pub enum FormPart {
    /// A file part: field name, file name, MIME type, and where its bytes come from.
    File { field: String, file_name: String, mime: String, source: PartSource },
    /// A text part: field name and value.
    Text { field: String, value: String },
}

/// A form part by view.
pub enum PartView {
    File(Seq<char>, Seq<char>, Seq<char>, PartSource),
    Text(Seq<char>, Seq<char>),
}

/// The view of a form part.
pub open spec fn part_view(p: FormPart) -> PartView {
    match p {
        FormPart::File { field, file_name, mime, source } => PartView::File(field@, file_name@, mime@, source),
        FormPart::Text { field, value } => PartView::Text(field@, value@),
    }
}

/// The field name of a form part.
pub open spec fn part_field(p: PartView) -> Seq<char> {
    match p {
        PartView::File(f, _, _, _) => f,
        PartView::Text(f, _) => f,
    }
}

/// An optional string by view.
pub open spec fn opt_view(o: Option<String>) -> Option<Seq<char>> {
    match o {
        Some(s) => Some(s@),
        None => None,
    }
}

/// A text part when the value is given, none otherwise.
pub open spec fn optional_text(field: Seq<char>, value: Option<Seq<char>>) -> Seq<PartView> {
    match value {
        Some(v) => seq![PartView::Text(field, v)],
        None => Seq::empty(),
    }
}

/// The field name of the screenshot at position `i`.
pub open spec fn screenshot_field(i: nat) -> Seq<char> {
    "screenshot_"@ + spec_decimal(i)
}

/// The file part of the screenshot at position `i`.
pub open spec fn screenshot_part(i: nat) -> PartView {
    PartView::File(screenshot_field(i), screenshot_field(i) + ".jpg"@, "image/jpeg"@, PartSource::Screenshot(i as usize))
}

/// The audio part: the recording, declared as the WebM/Opus file that the endpoint's `audio`
/// field takes ("recording.webm", "audio/webm").
pub open spec fn audio_part() -> PartView {
    PartView::File("audio"@, "recording.webm"@, "audio/webm"@, PartSource::Audio)
}

/// The form of a session upload: the audio, declared as the endpoint's WebM/Opus file, the
/// title, each optional text field that is given, then one file part per screenshot.
pub open spec fn spec_upload_form(
    title: Seq<char>,
    course: Option<Seq<char>>,
    duration: Option<Seq<char>>,
    captured_at: Option<Seq<char>>,
    device_name: Option<Seq<char>>,
    screenshots: nat,
) -> Seq<PartView> {
    seq![
        audio_part(),
        PartView::Text("title"@, title),
    ] + optional_text("course"@, course) + optional_text("duration"@, duration) + optional_text(
        "captured_at"@,
        captured_at,
    ) + optional_text("device_name"@, device_name) + Seq::new(screenshots, |i: int| screenshot_part(i as nat))
}

fn push_optional(parts: &mut Vec<FormPart>, field: &str, value: Option<String>)
    ensures
        final(parts)@.map_values(|p: FormPart| part_view(p)) == old(parts)@.map_values(|p: FormPart| part_view(p))
            + optional_text(field@, opt_view(value)),
{
    match value {
        Some(v) => {
            parts.push(FormPart::Text { field: String::from_str(field), value: v });
        },
        None => {},
    }
    assert(final(parts)@.map_values(|p: FormPart| part_view(p)) =~= old(parts)@.map_values(|p: FormPart| part_view(p))
        + optional_text(field@, opt_view(value)));
}

/// The parts of a session upload's multipart form, in order, for `screenshot_count` screenshots.
pub fn upload_form(
    title: String,
    course: Option<String>,
    duration: Option<String>,
    captured_at: Option<String>,
    device_name: Option<String>,
    screenshot_count: usize,
) -> (r: Vec<FormPart>)
    ensures
        r@.map_values(|p: FormPart| part_view(p)) == spec_upload_form(
            title@,
            opt_view(course),
            opt_view(duration),
            opt_view(captured_at),
            opt_view(device_name),
            screenshot_count as nat,
        ),
        carries_text(r@.map_values(|p: FormPart| part_view(p)), "title"@, Some(title@)),
        carries_text(r@.map_values(|p: FormPart| part_view(p)), "course"@, opt_view(course)),
        carries_text(r@.map_values(|p: FormPart| part_view(p)), "duration"@, opt_view(duration)),
        carries_text(r@.map_values(|p: FormPart| part_view(p)), "captured_at"@, opt_view(captured_at)),
        carries_text(r@.map_values(|p: FormPart| part_view(p)), "device_name"@, opt_view(device_name)),
        r@.len() == 2 + given_count(opt_view(course), opt_view(duration), opt_view(captured_at), opt_view(device_name))
            + screenshot_count,
        part_view(r@[0]) == PartView::File("audio"@, "recording.webm"@, "audio/webm"@, PartSource::Audio),
        forall|i: int|
            0 <= i < screenshot_count ==> match part_view(#[trigger] r@[r@.len() - screenshot_count + i]) {
                PartView::File(f, file_name, mime, source) => {
                    &&& source == PartSource::Screenshot(i as usize)
                    &&& f.len() > 11
                    &&& f.subrange(0, 11) == "screenshot_"@
                    &&& decimal_value(f.skip(11)) == i
                    &&& file_name == f + ".jpg"@
                    &&& mime == "image/jpeg"@
                },
                PartView::Text(_, _) => false,
            },
{
    proof {
        lemma_upload_form_files(
            title@,
            opt_view(course),
            opt_view(duration),
            opt_view(captured_at),
            opt_view(device_name),
            screenshot_count as nat,
        );
        lemma_upload_form_carries_fields(
            title@,
            opt_view(course),
            opt_view(duration),
            opt_view(captured_at),
            opt_view(device_name),
            screenshot_count as nat,
        );
    }
    let ghost t = title@;
    let ghost c = opt_view(course);
    let ghost d = opt_view(duration);
    let ghost ca = opt_view(captured_at);
    let ghost dn = opt_view(device_name);
    let mut parts: Vec<FormPart> = Vec::new();
    parts.push(
        FormPart::File {
            field: String::from_str("audio"),
            file_name: String::from_str("recording.webm"),
            mime: String::from_str("audio/webm"),
            source: PartSource::Audio,
        },
    );
    parts.push(FormPart::Text { field: String::from_str("title"), value: title });
    push_optional(&mut parts, "course", course);
    push_optional(&mut parts, "duration", duration);
    push_optional(&mut parts, "captured_at", captured_at);
    push_optional(&mut parts, "device_name", device_name);
    let ghost fixed = parts@.map_values(|p: FormPart| part_view(p));
    assert(fixed =~= seq![
        audio_part(),
        PartView::Text("title"@, t),
    ] + optional_text("course"@, c) + optional_text("duration"@, d) + optional_text("captured_at"@, ca)
        + optional_text("device_name"@, dn));
    let mut i: usize = 0;
    while i < screenshot_count
        invariant
            i <= screenshot_count,
            parts@.map_values(|p: FormPart| part_view(p)) == fixed + Seq::new(
                i as nat,
                |k: int| screenshot_part(k as nat),
            ),
        decreases screenshot_count - i,
    {
        let n = decimal_string(i);
        let field = concat_str("screenshot_", n.as_str());
        let file_name = concat_str(field.as_str(), ".jpg");
        let ghost before = parts@;
        let ghost expected = screenshot_part(i as nat);
        assert(field@ == screenshot_field(i as nat));
        parts.push(
            FormPart::File {
                field,
                file_name,
                mime: String::from_str("image/jpeg"),
                source: PartSource::Screenshot(i),
            },
        );
        assert(part_view(parts@[before.len() as int]) == expected);
        assert(parts@.map_values(|p: FormPart| part_view(p)) =~= before.map_values(|p: FormPart| part_view(p)).push(expected));
        i = i + 1;
        assert(parts@.map_values(|p: FormPart| part_view(p)) =~= fixed + Seq::new(
            i as nat,
            |k: int| screenshot_part(k as nat),
        ));
    }
    proof {
        let pv = parts@.map_values(|p: FormPart| part_view(p));
        assert forall|i: int| 0 <= i < screenshot_count implies part_view(
            #[trigger] parts@[parts@.len() - screenshot_count + i],
        ) == pv[pv.len() - screenshot_count + i] by {}
    }
    parts
}

/// The field names of a session upload's form are pairwise distinct.
pub proof fn lemma_upload_fields_distinct(
    title: Seq<char>,
    course: Option<Seq<char>>,
    duration: Option<Seq<char>>,
    captured_at: Option<Seq<char>>,
    device_name: Option<Seq<char>>,
    screenshots: nat,
)
    ensures
        ({
            let form = spec_upload_form(title, course, duration, captured_at, device_name, screenshots);
            forall|i: int, j: int|
                0 <= i < j < form.len() ==> part_field(#[trigger] form[i]) != part_field(#[trigger] form[j])
        }),
{
    reveal_strlit("audio");
    reveal_strlit("title");
    reveal_strlit("course");
    reveal_strlit("duration");
    reveal_strlit("captured_at");
    reveal_strlit("device_name");
    reveal_strlit("screenshot_");
    let form = spec_upload_form(title, course, duration, captured_at, device_name, screenshots);
    let fixed = seq![
        audio_part(),
        PartView::Text("title"@, title),
    ] + optional_text("course"@, course) + optional_text("duration"@, duration) + optional_text(
        "captured_at"@,
        captured_at,
    ) + optional_text("device_name"@, device_name);
    let shots = Seq::new(screenshots, |i: int| screenshot_part(i as nat));
    assert(form =~= fixed + shots);
    // The fixed fields are named by their first two characters, none of which starts "sc".
    assert forall|i: int| 0 <= i < fixed.len() implies {
        let f = part_field(#[trigger] fixed[i]);
        &&& f.len() >= 2
        &&& f[0] != 's'
        &&& (f == "audio"@ || f == "title"@ || f == "course"@ || f == "duration"@ || f
            == "captured_at"@ || f == "device_name"@)
    } by {
        let a = seq![
            audio_part(),
            PartView::Text("title"@, title),
        ];
        let b = optional_text("course"@, course);
        let c = optional_text("duration"@, duration);
        let d = optional_text("captured_at"@, captured_at);
        let e = optional_text("device_name"@, device_name);
        assert(fixed == a + b + c + d + e);
    }
    assert forall|i: int, j: int| 0 <= i < j < fixed.len() implies part_field(#[trigger] fixed[i])
        != part_field(#[trigger] fixed[j]) by {
        let a = seq![
            audio_part(),
            PartView::Text("title"@, title),
        ];
        let b = optional_text("course"@, course);
        let c = optional_text("duration"@, duration);
        let d = optional_text("captured_at"@, captured_at);
        let e = optional_text("device_name"@, device_name);
        let ab = a + b;
        let abc = ab + c;
        let abcd = abc + d;
        assert(fixed == abcd + e);
        assert(b.len() <= 1 && c.len() <= 1 && d.len() <= 1 && e.len() <= 1);
        let fi = part_field(fixed[i]);
        let fj = part_field(fixed[j]);
        // Each optional block contributes its own field name, so position decides the name.
        if i == 0 {
            assert(fi == "audio"@);
        } else if i == 1 {
            assert(fi == "title"@);
        }
        if j == 1 {
            assert(fj == "title"@);
        }
        if i >= 2 && i < ab.len() {
            assert(fi == "course"@);
        } else if i >= ab.len() && i < abc.len() {
            assert(fi == "duration"@);
        } else if i >= abc.len() && i < abcd.len() {
            assert(fi == "captured_at"@);
        } else if i >= abcd.len() {
            assert(fi == "device_name"@);
        }
        if j >= 2 && j < ab.len() {
            assert(fj == "course"@);
        } else if j >= ab.len() && j < abc.len() {
            assert(fj == "duration"@);
        } else if j >= abc.len() && j < abcd.len() {
            assert(fj == "captured_at"@);
        } else if j >= abcd.len() {
            assert(fj == "device_name"@);
        }
        assert("audio"@[0] != "title"@[0] && "audio"@[0] != "course"@[0] && "audio"@[0] != "duration"@[0]
            && "audio"@[0] != "captured_at"@[0] && "audio"@[0] != "device_name"@[0]);
        assert("title"@[0] != "course"@[0] && "title"@[0] != "duration"@[0] && "title"@[0]
            != "captured_at"@[0] && "title"@[0] != "device_name"@[0]);
        assert("course"@[0] != "duration"@[0] && "course"@[1] != "captured_at"@[1] && "course"@[0]
            != "device_name"@[0]);
        assert("duration"@[0] != "captured_at"@[0] && "duration"@[1] != "device_name"@[1]);
        assert("captured_at"@[0] != "device_name"@[0]);
    }
    assert forall|i: int, j: int| 0 <= i < j < form.len() implies part_field(#[trigger] form[i])
        != part_field(#[trigger] form[j]) by {
        if j < fixed.len() {
            assert(form[i] == fixed[i] && form[j] == fixed[j]);
        } else if i < fixed.len() {
            let fi = part_field(fixed[i]);
            assert(form[i] == fixed[i]);
            assert(form[j] == shots[j - fixed.len()]);
            let fj = screenshot_field((j - fixed.len()) as nat);
            assert(fj[0] == 's');
            assert(fi[0] != 's');
        } else {
            let a = (i - fixed.len()) as nat;
            let b = (j - fixed.len()) as nat;
            assert(form[i] == shots[i - fixed.len()]);
            assert(form[j] == shots[j - fixed.len()]);
            if screenshot_field(a) == screenshot_field(b) {
                let p = "screenshot_"@;
                assert(screenshot_field(a).skip(p.len() as int) =~= spec_decimal(a));
                assert(screenshot_field(b).skip(p.len() as int) =~= spec_decimal(b));
                lemma_decimal_injective(a, b);
            }
        }
    }
}

/// The form carries the text field `field` as `value` says: exactly one part named `field`, a
/// text part holding the value, when it is given; no part named `field` when it is not.
pub open spec fn carries_text(form: Seq<PartView>, field: Seq<char>, value: Option<Seq<char>>) -> bool {
    match value {
        Some(v) => exists|i: int|
            0 <= i < form.len() && #[trigger] form[i] == PartView::Text(field, v) && forall|j: int|
                0 <= j < form.len() && part_field(#[trigger] form[j]) == field ==> j == i,
        None => forall|j: int| 0 <= j < form.len() ==> part_field(#[trigger] form[j]) != field,
    }
}

proof fn lemma_form_field_names(
    title: Seq<char>,
    course: Option<Seq<char>>,
    duration: Option<Seq<char>>,
    captured_at: Option<Seq<char>>,
    device_name: Option<Seq<char>>,
    screenshots: nat,
)
    ensures
        ({
            let form = spec_upload_form(title, course, duration, captured_at, device_name, screenshots);
            forall|j: int| 0 <= j < form.len() ==> {
                let f = part_field(#[trigger] form[j]);
                ||| f == "audio"@
                ||| f == "title"@
                ||| (course is Some && f == "course"@)
                ||| (duration is Some && f == "duration"@)
                ||| (captured_at is Some && f == "captured_at"@)
                ||| (device_name is Some && f == "device_name"@)
                ||| (f.len() > 0 && f[0] == 's')
            }
        }),
{
    reveal_strlit("screenshot_");
    let form = spec_upload_form(title, course, duration, captured_at, device_name, screenshots);
    let a = seq![audio_part(), PartView::Text("title"@, title)];
    let b = optional_text("course"@, course);
    let c = optional_text("duration"@, duration);
    let d = optional_text("captured_at"@, captured_at);
    let e = optional_text("device_name"@, device_name);
    let shots = Seq::new(screenshots, |i: int| screenshot_part(i as nat));
    let ab = a + b;
    let abc = ab + c;
    let abcd = abc + d;
    let fixed = abcd + e;
    assert(form =~= fixed + shots);
    assert forall|j: int| 0 <= j < form.len() implies {
        let f = part_field(#[trigger] form[j]);
        ||| f == "audio"@
        ||| f == "title"@
        ||| (course is Some && f == "course"@)
        ||| (duration is Some && f == "duration"@)
        ||| (captured_at is Some && f == "captured_at"@)
        ||| (device_name is Some && f == "device_name"@)
        ||| (f.len() > 0 && f[0] == 's')
    } by {
        let f = part_field(form[j]);
        if j >= fixed.len() {
            assert(form[j] == shots[j - fixed.len()]);
            assert(f == screenshot_field((j - fixed.len()) as nat));
            assert(f[0] == 's');
        } else if j == 0 {
            assert(form[j] == a[0]);
        } else if j == 1 {
            assert(form[j] == a[1]);
        } else if j < ab.len() {
            assert(form[j] == b[j - 2]);
        } else if j < abc.len() {
            assert(form[j] == c[j - ab.len()]);
        } else if j < abcd.len() {
            assert(form[j] == d[j - abc.len()]);
        } else {
            assert(form[j] == e[j - abcd.len()]);
        }
    }
}

proof fn lemma_carries_given(
    form: Seq<PartView>,
    field: Seq<char>,
    v: Seq<char>,
    i: int,
)
    requires
        0 <= i < form.len(),
        form[i] == PartView::Text(field, v),
        forall|x: int, y: int| 0 <= x < y < form.len() ==> part_field(#[trigger] form[x]) != part_field(#[trigger] form[y]),
    ensures
        carries_text(form, field, Some(v)),
{
    assert forall|j: int| 0 <= j < form.len() && part_field(#[trigger] form[j]) == field implies j == i by {
        if j < i {
            assert(part_field(form[j]) != part_field(form[i]));
        } else if j > i {
            assert(part_field(form[i]) != part_field(form[j]));
        }
    }
}

/// The form carries the title, and each optional text field exactly as it is given: when it is
/// `Some(v)` one text part of that name holding `v`, when it is `None` no part of that name.
pub proof fn lemma_upload_form_carries_fields(
    title: Seq<char>,
    course: Option<Seq<char>>,
    duration: Option<Seq<char>>,
    captured_at: Option<Seq<char>>,
    device_name: Option<Seq<char>>,
    screenshots: nat,
)
    ensures
        ({
            let form = spec_upload_form(title, course, duration, captured_at, device_name, screenshots);
            &&& carries_text(form, "title"@, Some(title))
            &&& carries_text(form, "course"@, course)
            &&& carries_text(form, "duration"@, duration)
            &&& carries_text(form, "captured_at"@, captured_at)
            &&& carries_text(form, "device_name"@, device_name)
        }),
{
    reveal_strlit("audio");
    reveal_strlit("title");
    reveal_strlit("course");
    reveal_strlit("duration");
    reveal_strlit("captured_at");
    reveal_strlit("device_name");
    let form = spec_upload_form(title, course, duration, captured_at, device_name, screenshots);
    lemma_upload_fields_distinct(title, course, duration, captured_at, device_name, screenshots);
    lemma_form_field_names(title, course, duration, captured_at, device_name, screenshots);
    let a = seq![audio_part(), PartView::Text("title"@, title)];
    let b = optional_text("course"@, course);
    let c = optional_text("duration"@, duration);
    let d = optional_text("captured_at"@, captured_at);
    let e = optional_text("device_name"@, device_name);
    let shots = Seq::new(screenshots, |i: int| screenshot_part(i as nat));
    let ab = a + b;
    let abc = ab + c;
    let abcd = abc + d;
    let fixed = abcd + e;
    assert(form =~= fixed + shots);
    assert(form[1] == PartView::Text("title"@, title));
    lemma_carries_given(form, "title"@, title, 1);
    match course {
        Some(v) => {
            assert(form[2] == b[0]);
            lemma_carries_given(form, "course"@, v, 2);
        },
        None => {
            assert forall|j: int| 0 <= j < form.len() implies part_field(#[trigger] form[j]) != "course"@ by {
                assert("course"@[0] != "audio"@[0] && "course"@[0] != "title"@[0] && "course"@[0] != "duration"@[0]);
                assert("course"@[1] != "captured_at"@[1] && "course"@[0] != "device_name"@[0] && "course"@[0] != 's');
            }
        },
    }
    match duration {
        Some(v) => {
            assert(form[ab.len() as int] == c[0]);
            lemma_carries_given(form, "duration"@, v, ab.len() as int);
        },
        None => {
            assert forall|j: int| 0 <= j < form.len() implies part_field(#[trigger] form[j]) != "duration"@ by {
                assert("duration"@[0] != "audio"@[0] && "duration"@[0] != "title"@[0] && "duration"@[0] != "course"@[0]);
                assert("duration"@[0] != "captured_at"@[0] && "duration"@[1] != "device_name"@[1] && "duration"@[0] != 's');
            }
        },
    }
    match captured_at {
        Some(v) => {
            assert(form[abc.len() as int] == d[0]);
            lemma_carries_given(form, "captured_at"@, v, abc.len() as int);
        },
        None => {
            assert forall|j: int| 0 <= j < form.len() implies part_field(#[trigger] form[j]) != "captured_at"@ by {
                assert("captured_at"@[0] != "audio"@[0] && "captured_at"@[0] != "title"@[0] && "captured_at"@[1] != "course"@[1]);
                assert("captured_at"@[0] != "duration"@[0] && "captured_at"@[0] != "device_name"@[0] && "captured_at"@[0] != 's');
            }
        },
    }
    match device_name {
        Some(v) => {
            assert(form[abcd.len() as int] == e[0]);
            lemma_carries_given(form, "device_name"@, v, abcd.len() as int);
        },
        None => {
            assert forall|j: int| 0 <= j < form.len() implies part_field(#[trigger] form[j]) != "device_name"@ by {
                assert("device_name"@[0] != "audio"@[0] && "device_name"@[0] != "title"@[0] && "device_name"@[0] != "course"@[0]);
                assert("device_name"@[1] != "duration"@[1] && "device_name"@[0] != "captured_at"@[0] && "device_name"@[0] != 's');
            }
        },
    }
}

/// The number of optional text fields that are given.
pub open spec fn given_count(
    course: Option<Seq<char>>,
    duration: Option<Seq<char>>,
    captured_at: Option<Seq<char>>,
    device_name: Option<Seq<char>>,
) -> nat {
    (if course is Some { 1nat } else { 0nat }) + (if duration is Some { 1nat } else { 0nat }) + (if captured_at
        is Some {
        1nat
    } else {
        0nat
    }) + (if device_name is Some { 1nat } else { 0nat })
}

/// The form starts with the audio file part, holds one part per given field, and ends with one
/// JPEG file part per screenshot, in order: the `i`-th is read from screenshot `i`, named
/// "screenshot_" followed by decimal digits whose value is `i`, with that name plus ".jpg" as its
/// file name.
pub proof fn lemma_upload_form_files(
    title: Seq<char>,
    course: Option<Seq<char>>,
    duration: Option<Seq<char>>,
    captured_at: Option<Seq<char>>,
    device_name: Option<Seq<char>>,
    screenshots: nat,
)
    ensures
        ({
            let form = spec_upload_form(title, course, duration, captured_at, device_name, screenshots);
            &&& form.len() == 2 + given_count(course, duration, captured_at, device_name) + screenshots
            &&& form[0] == PartView::File("audio"@, "recording.webm"@, "audio/webm"@, PartSource::Audio)
            &&& forall|i: int|
                0 <= i < screenshots ==> match #[trigger] form[form.len() - screenshots + i] {
                    PartView::File(f, file_name, mime, source) => {
                        &&& source == PartSource::Screenshot(i as usize)
                        &&& f.len() > 11
                        &&& f.subrange(0, 11) == "screenshot_"@
                        &&& decimal_value(f.skip(11)) == i
                        &&& file_name == f + ".jpg"@
                        &&& mime == "image/jpeg"@
                    },
                    PartView::Text(_, _) => false,
                }
        }),
{
    reveal_strlit("screenshot_");
    let form = spec_upload_form(title, course, duration, captured_at, device_name, screenshots);
    let a = seq![audio_part(), PartView::Text("title"@, title)];
    let b = optional_text("course"@, course);
    let c = optional_text("duration"@, duration);
    let d = optional_text("captured_at"@, captured_at);
    let e = optional_text("device_name"@, device_name);
    let shots = Seq::new(screenshots, |i: int| screenshot_part(i as nat));
    let fixed = a + b + c + d + e;
    assert(form =~= fixed + shots);
    assert(fixed.len() == 2 + given_count(course, duration, captured_at, device_name));
    assert forall|i: int| 0 <= i < screenshots implies match #[trigger] form[form.len() - screenshots + i] {
        PartView::File(f, file_name, mime, source) => {
            &&& source == PartSource::Screenshot(i as usize)
            &&& f.len() > 11
            &&& f.subrange(0, 11) == "screenshot_"@
            &&& decimal_value(f.skip(11)) == i
            &&& file_name == f + ".jpg"@
            &&& mime == "image/jpeg"@
        },
        PartView::Text(_, _) => false,
    } by {
        assert(form[form.len() - screenshots + i] == shots[i]);
        lemma_decimal_roundtrip(i as nat);
        let f = screenshot_field(i as nat);
        assert(f.subrange(0, 11) =~= "screenshot_"@);
        assert(f.skip(11) =~= spec_decimal(i as nat));
    }
}

/// Where the processing status of a lecture is read.
pub open spec fn spec_status_url(lecture_id: Seq<char>) -> Seq<char> {
    "https://app.crambo.ai/api/ingest/desktop/status/"@ + lecture_id
}

/// Where the processing status of the lecture `lecture_id` is read.
pub fn status_url(lecture_id: &str) -> (r: String)
    ensures
        r@ == spec_status_url(lecture_id@),
{
    concat_str("https://app.crambo.ai/api/ingest/desktop/status/", lecture_id)
}

/// The authorisation header's value for a token.
pub fn bearer_header(token: &str) -> (r: String)
    ensures
        r@ == "Bearer "@ + token@,
{
    concat_str("Bearer ", token)
}

/// Whether an HTTP status code is a success (200 to 299).
pub open spec fn is_success(code: u16) -> bool {
    200 <= code && code <= 299
}

/// Whether an HTTP status code is a success (200 to 299).
pub fn is_success_status(code: u16) -> (r: bool)
    ensures
        r == is_success(code),
        r <==> 200 <= code <= 299,
{
    200 <= code && code <= 299
}

/// Exactly the statuses 200 to 299 are successes: every 2xx status is accepted and every other
/// status is refused.
pub proof fn lemma_success_is_2xx(code: u16)
    ensures
        is_success(code) <==> (200 <= code && code <= 299),
        200 <= code <= 299 ==> is_success(code),
        code < 200 || code > 299 ==> !is_success(code),
{
}

/// The error that a failure status gives: the context, the status, then the answer's body.
pub open spec fn spec_failure_message(context: Seq<char>, status: Seq<char>, body: Seq<char>) -> Seq<char> {
    context + " ("@ + status + "): "@ + body
}

/// The outcome of an answer's status: success for 2xx; otherwise the error made of `context`
/// (such as "Upload failed"), the status as displayed and the answer's body.
pub fn check_status(context: &str, code: u16, status: &str, body: &str) -> (r: Result<(), String>)
    ensures
        is_success(code) <==> r is Ok,
        r is Ok <==> 200 <= code <= 299,
        r matches Err(m) ==> m@ == context@ + " ("@ + status@ + "): "@ + body@,
        r matches Err(m) ==> m@ == spec_failure_message(context@, status@, body@),
{
    if is_success_status(code) {
        Ok(())
    } else {
        let a = concat_str(context, " (");
        let b = concat_str(a.as_str(), status);
        let c = concat_str(b.as_str(), "): ");
        Err(concat_str(c.as_str(), body))
    }
}

/// The error when the screenshot at position `index` cannot be read.
pub fn screenshot_read_error(index: usize, detail: &str) -> (r: String)
    ensures
        r@ == "Failed to read screenshot "@ + spec_decimal(index as nat) + ": "@ + detail@,
{
    let n = decimal_string(index);
    let a = concat_str("Failed to read screenshot ", n.as_str());
    let b = concat_str(a.as_str(), ": ");
    concat_str(b.as_str(), detail)
}

} // verus!
