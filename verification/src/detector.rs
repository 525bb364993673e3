//! Meeting detection: which meeting application, if any, the running processes show.

use vstd::prelude::*;
use crate::text::{chars_contain, chars_of, seq_contains, spec_to_lowercase, to_lowercase};

verus! {

/// What detection reads of a running process.
pub struct ProcessInfo {
    /// The process name.
    pub name: String,
    /// Its command line, element by element.
    pub cmd: Vec<String>,
}

/// Desktop meeting applications: a pattern of the lower-cased process name, and the meeting
/// application it reveals, in the order they are tried.
pub open spec fn meeting_apps() -> Seq<(Seq<char>, Seq<char>)> {
    seq![
        ("zoom"@, "Zoom"@),
        ("zoom.us"@, "Zoom"@),
        ("teams"@, "Microsoft Teams"@),
        ("webex"@, "Webex"@),
        ("ciscocollabhost"@, "Webex"@),
    ]
}

/// Meeting sites: a pattern of a lower-cased command-line element, and the meeting it belongs
/// to, in the order they are tried.
pub open spec fn meeting_sites() -> Seq<(Seq<char>, Seq<char>)> {
    seq![("meet.google.com"@, "Google Meet"@), ("teams.microsoft.com"@, "Microsoft Teams"@)]
}

/// A lower-cased process name that belongs to a browser which may host a meeting.
pub open spec fn is_browser(lname: Seq<char>) -> bool {
    seq_contains(lname, "chrome"@) || seq_contains(lname, "msedge"@)
}

/// The meeting application of the first pattern in `table` that `lname` contains.
pub open spec fn first_app_match(lname: Seq<char>, table: Seq<(Seq<char>, Seq<char>)>) -> Option<Seq<char>>
    decreases table.len(),
{
    if table.len() == 0 {
        None
    } else if seq_contains(lname, table[0].0) {
        Some(table[0].1)
    } else {
        first_app_match(lname, table.drop_first())
    }
}

/// Some element of the lower-cased command line contains `pattern`.
pub open spec fn command_contains(lcmd: Seq<Seq<char>>, pattern: Seq<char>) -> bool {
    exists|i: int| 0 <= i < lcmd.len() && seq_contains(#[trigger] lcmd[i], pattern)
}

/// The meeting of the first site in `table` that some element of the lower-cased command line
/// contains.
pub open spec fn first_site_match(lcmd: Seq<Seq<char>>, table: Seq<(Seq<char>, Seq<char>)>) -> Option<Seq<char>>
    decreases table.len(),
{
    if table.len() == 0 {
        None
    } else if command_contains(lcmd, table[0].0) {
        Some(table[0].1)
    } else {
        first_site_match(lcmd, table.drop_first())
    }
}

/// The lower-cased command line of a process.
pub open spec fn lowered_cmd(p: ProcessInfo) -> Seq<Seq<char>> {
    p.cmd@.map_values(|a: String| spec_to_lowercase(a@))
}

/// The meeting that one process reveals: a desktop application by its name; otherwise, for a
/// browser, the meeting whose site its command line holds.
pub open spec fn process_meeting(p: ProcessInfo) -> Option<Seq<char>> {
    meeting_from_lowered(spec_to_lowercase(p.name@), lowered_cmd(p))
}

/// The meeting that a process reveals, from its lower-cased name and its lower-cased command
/// line: a desktop application by its name; otherwise, for a browser, the meeting whose site
/// the command line holds.
pub open spec fn meeting_from_lowered(lname: Seq<char>, lcmd: Seq<Seq<char>>) -> Option<Seq<char>> {
    match first_app_match(lname, meeting_apps()) {
        Some(a) => Some(a),
        None => if is_browser(lname) {
            first_site_match(lcmd, meeting_sites())
        } else {
            None
        },
    }
}

/// The meeting that the first revealing process (in the order given) reveals.
pub open spec fn spec_detect(ps: Seq<ProcessInfo>) -> Option<Seq<char>>
    decreases ps.len(),
{
    if ps.len() == 0 {
        None
    } else {
        match process_meeting(ps[0]) {
            Some(m) => Some(m),
            None => spec_detect(ps.drop_first()),
        }
    }
}

/// Detection names the meeting of the first process that reveals one: the result is `Some(m)`
/// exactly when some process reveals `m` and every process before it reveals none, and `None`
/// exactly when no process reveals a meeting.
pub proof fn lemma_detect_first_revealing(ps: Seq<ProcessInfo>)
    ensures
        spec_detect(ps) matches Some(m) ==> exists|k: int|
            0 <= k < ps.len() && process_meeting(#[trigger] ps[k]) == Some(m) && forall|j: int|
                0 <= j < k ==> process_meeting(#[trigger] ps[j]) is None,
        spec_detect(ps) is None <==> forall|k: int| 0 <= k < ps.len() ==> process_meeting(#[trigger] ps[k]) is None,
        forall|k: int|
            0 <= k < ps.len() && process_meeting(#[trigger] ps[k]) is Some && (forall|j: int|
                0 <= j < k ==> process_meeting(#[trigger] ps[j]) is None) ==> spec_detect(ps) == process_meeting(ps[k]),
    decreases ps.len(),
{
    if ps.len() > 0 {
        let rest = ps.drop_first();
        lemma_detect_first_revealing(rest);
        assert forall|k: int| 0 <= k < rest.len() implies #[trigger] rest[k] == ps[k + 1] by {}
        if process_meeting(ps[0]) is Some {
            assert forall|k: int|
                0 <= k < ps.len() && process_meeting(#[trigger] ps[k]) is Some && (forall|j: int|
                    0 <= j < k ==> process_meeting(#[trigger] ps[j]) is None) implies spec_detect(ps) == process_meeting(ps[k]) by {
                if k > 0 {
                    assert(process_meeting(ps[0]) is None);
                }
            }
        } else {
            if let Some(m) = spec_detect(ps) {
                let k = choose|k: int|
                    0 <= k < rest.len() && process_meeting(#[trigger] rest[k]) == Some(m) && forall|j: int|
                        0 <= j < k ==> process_meeting(#[trigger] rest[j]) is None;
                assert(process_meeting(ps[k + 1]) == Some(m));
                assert forall|j: int| 0 <= j < k + 1 implies process_meeting(#[trigger] ps[j]) is None by {
                    if j > 0 {
                        assert(ps[j] == rest[j - 1]);
                    }
                }
            }
            if spec_detect(ps) is None {
                assert forall|k: int| 0 <= k < ps.len() implies process_meeting(#[trigger] ps[k]) is None by {
                    if k > 0 {
                        assert(ps[k] == rest[k - 1]);
                    }
                }
            } else {
                let m = spec_detect(rest)->0;
                let k = choose|k: int|
                    0 <= k < rest.len() && process_meeting(#[trigger] rest[k]) == Some(m) && forall|j: int|
                        0 <= j < k ==> process_meeting(#[trigger] rest[j]) is None;
                assert(process_meeting(ps[k + 1]) is Some);
            }
            assert forall|k: int|
                0 <= k < ps.len() && process_meeting(#[trigger] ps[k]) is Some && (forall|j: int|
                    0 <= j < k ==> process_meeting(#[trigger] ps[j]) is None) implies spec_detect(ps) == process_meeting(ps[k]) by {
                assert(k > 0);
                assert(ps[k] == rest[k - 1]);
                assert forall|j: int| 0 <= j < k - 1 implies process_meeting(#[trigger] rest[j]) is None by {
                    assert(rest[j] == ps[j + 1]);
                }
            }
        }
    }
}

/// A process that reveals no meeting does not change what detection finds: leaving it out gives
/// the same result.
pub proof fn lemma_detect_ignores_silent_process(ps: Seq<ProcessInfo>, k: int)
    requires
        0 <= k < ps.len(),
        process_meeting(ps[k]) is None,
    ensures
        spec_detect(ps) == spec_detect(ps.remove(k)),
    decreases ps.len(),
{
    if k == 0 {
        assert(ps.remove(0) =~= ps.drop_first());
    } else {
        let rest = ps.drop_first();
        assert(rest[k - 1] == ps[k]);
        lemma_detect_ignores_silent_process(rest, k - 1);
        assert(ps.remove(k).drop_first() =~= rest.remove(k - 1));
        assert(ps.remove(k)[0] == ps[0]);
    }
}

/// The meetings that detection knows: Zoom, Microsoft Teams, Webex and Google Meet.
pub open spec fn is_known_meeting(m: Seq<char>) -> bool {
    m == "Zoom"@ || m == "Microsoft Teams"@ || m == "Webex"@ || m == "Google Meet"@
}

proof fn lemma_app_match_from_table(lname: Seq<char>, table: Seq<(Seq<char>, Seq<char>)>)
    ensures
        first_app_match(lname, table) matches Some(m) ==> exists|i: int| 0 <= i < table.len() && m == (#[trigger] table[i]).1,
    decreases table.len(),
{
    if table.len() > 0 && !seq_contains(lname, table[0].0) {
        lemma_app_match_from_table(lname, table.drop_first());
        if let Some(m) = first_app_match(lname, table) {
            let i = choose|i: int| 0 <= i < table.drop_first().len() && m == (#[trigger] table.drop_first()[i]).1;
            assert(table[i + 1] == table.drop_first()[i]);
        }
    } else if table.len() > 0 {
        assert(table[0].1 == table[0].1);
    }
}

proof fn lemma_site_match_from_table(lcmd: Seq<Seq<char>>, table: Seq<(Seq<char>, Seq<char>)>)
    ensures
        first_site_match(lcmd, table) matches Some(m) ==> exists|i: int| 0 <= i < table.len() && m == (#[trigger] table[i]).1,
    decreases table.len(),
{
    if table.len() > 0 && !command_contains(lcmd, table[0].0) {
        lemma_site_match_from_table(lcmd, table.drop_first());
        if let Some(m) = first_site_match(lcmd, table) {
            let i = choose|i: int| 0 <= i < table.drop_first().len() && m == (#[trigger] table.drop_first()[i]).1;
            assert(table[i + 1] == table.drop_first()[i]);
        }
    } else if table.len() > 0 {
        assert(table[0].1 == table[0].1);
    }
}

/// Detection only ever names one of the known meetings.
pub proof fn lemma_detect_names_known_meeting(ps: Seq<ProcessInfo>)
    ensures
        spec_detect(ps) matches Some(m) ==> is_known_meeting(m),
    decreases ps.len(),
{
    if ps.len() > 0 {
        let p = ps[0];
        let lname = spec_to_lowercase(p.name@);
        lemma_app_match_from_table(lname, meeting_apps());
        lemma_site_match_from_table(lowered_cmd(p), meeting_sites());
        let apps = meeting_apps();
        let sites = meeting_sites();
        assert(forall|i: int| 0 <= i < apps.len() ==> is_known_meeting(#[trigger] apps[i].1));
        assert(forall|i: int| 0 <= i < sites.len() ==> is_known_meeting(#[trigger] sites[i].1));
        lemma_detect_names_known_meeting(ps.drop_first());
    }
}

fn first_app(lname: &Vec<char>, table: &Vec<(&str, &str)>) -> (r: Option<String>)
    ensures
        r matches Some(s) ==> first_app_match(lname@, table@.map_values(|e: (&str, &str)| (e.0@, e.1@))) == Some(s@),
        r is None ==> first_app_match(lname@, table@.map_values(|e: (&str, &str)| (e.0@, e.1@))) is None,
{
    let ghost t = table@.map_values(|e: (&str, &str)| (e.0@, e.1@));
    let mut i: usize = 0;
    assert(t.skip(0) =~= t);
    while i < table.len()
        invariant
            i <= table@.len(),
            t == table@.map_values(|e: (&str, &str)| (e.0@, e.1@)),
            first_app_match(lname@, t) == first_app_match(lname@, t.skip(i as int)),
        decreases table@.len() - i,
    {
        let (pattern, app) = table[i];
        let pc = chars_of(pattern);
        assert(t.skip(i as int)[0] == (pattern@, app@));
        assert(t.skip(i as int).drop_first() =~= t.skip(i + 1));
        if chars_contain(lname, &pc) {
            return Some(String::from_str(app));
        }
        i = i + 1;
    }
    assert(t.skip(i as int).len() == 0);
    None
}

fn any_contains(lcmd: &Vec<Vec<char>>, pattern: &Vec<char>) -> (r: bool)
    ensures
        r == command_contains(lcmd@.map_values(|a: Vec<char>| a@), pattern@),
{
    let ghost l = lcmd@.map_values(|a: Vec<char>| a@);
    let mut i: usize = 0;
    while i < lcmd.len()
        invariant
            i <= lcmd@.len(),
            l == lcmd@.map_values(|a: Vec<char>| a@),
            forall|k: int| 0 <= k < i ==> !seq_contains(#[trigger] l[k], pattern@),
        decreases lcmd@.len() - i,
    {
        if chars_contain(&lcmd[i], pattern) {
            assert(seq_contains(l[i as int], pattern@));
            return true;
        }
        i = i + 1;
    }
    false
}

fn first_site(lcmd: &Vec<Vec<char>>, table: &Vec<(&str, &str)>) -> (r: Option<String>)
    ensures
        ({
            let lc = lcmd@.map_values(|a: Vec<char>| a@);
            let t = table@.map_values(|e: (&str, &str)| (e.0@, e.1@));
            &&& r matches Some(s) ==> first_site_match(lc, t) == Some(s@)
            &&& r is None ==> first_site_match(lc, t) is None
        }),
{
    let ghost lc = lcmd@.map_values(|a: Vec<char>| a@);
    let ghost t = table@.map_values(|e: (&str, &str)| (e.0@, e.1@));
    let mut i: usize = 0;
    assert(t.skip(0) =~= t);
    while i < table.len()
        invariant
            i <= table@.len(),
            t == table@.map_values(|e: (&str, &str)| (e.0@, e.1@)),
            lc == lcmd@.map_values(|a: Vec<char>| a@),
            first_site_match(lc, t) == first_site_match(lc, t.skip(i as int)),
        decreases table@.len() - i,
    {
        let (site, meeting) = table[i];
        let sc = chars_of(site);
        assert(t.skip(i as int)[0] == (site@, meeting@));
        assert(t.skip(i as int).drop_first() =~= t.skip(i + 1));
        if any_contains(lcmd, &sc) {
            return Some(String::from_str(meeting));
        }
        i = i + 1;
    }
    assert(t.skip(i as int).len() == 0);
    None
}

fn lowered_command(cmd: &Vec<String>) -> (r: Vec<String>)
    ensures
        r@.map_values(|a: String| a@) == cmd@.map_values(|a: String| spec_to_lowercase(a@)),
{
    let mut out: Vec<String> = Vec::new();
    let mut i: usize = 0;
    while i < cmd.len()
        invariant
            i <= cmd@.len(),
            out@.len() == i,
            forall|k: int| 0 <= k < i ==> (#[trigger] out@[k])@ == spec_to_lowercase(cmd@[k]@),
        decreases cmd@.len() - i,
    {
        let l = to_lowercase(cmd[i].as_str());
        out.push(l);
        i = i + 1;
    }
    assert(out@.map_values(|a: String| a@) =~= cmd@.map_values(|a: String| spec_to_lowercase(a@)));
    out
}

fn chars_of_all(v: &Vec<String>) -> (r: Vec<Vec<char>>)
    ensures
        r@.map_values(|a: Vec<char>| a@) == v@.map_values(|a: String| a@),
{
    let mut out: Vec<Vec<char>> = Vec::new();
    let mut i: usize = 0;
    while i < v.len()
        invariant
            i <= v@.len(),
            out@.len() == i,
            forall|k: int| 0 <= k < i ==> (#[trigger] out@[k])@ == v@[k]@,
        decreases v@.len() - i,
    {
        out.push(chars_of(v[i].as_str()));
        i = i + 1;
    }
    assert(out@.map_values(|a: Vec<char>| a@) =~= v@.map_values(|a: String| a@));
    out
}

/// The meeting that one process reveals, given its lower-cased name and its lower-cased
/// command line.
pub fn meeting_from_lowered_process(lname: &str, lcmd: &Vec<String>) -> (r: Option<String>)
    ensures
        r matches Some(s) ==> meeting_from_lowered(lname@, lcmd@.map_values(|a: String| a@)) == Some(s@),
        r is None ==> meeting_from_lowered(lname@, lcmd@.map_values(|a: String| a@)) is None,
{
    let apps: Vec<(&str, &str)> = vec![
        ("zoom", "Zoom"),
        ("zoom.us", "Zoom"),
        ("teams", "Microsoft Teams"),
        ("webex", "Webex"),
        ("ciscocollabhost", "Webex"),
    ];
    let sites: Vec<(&str, &str)> = vec![
        ("meet.google.com", "Google Meet"),
        ("teams.microsoft.com", "Microsoft Teams"),
    ];
    assert(apps@.map_values(|e: (&str, &str)| (e.0@, e.1@)) =~= meeting_apps());
    assert(sites@.map_values(|e: (&str, &str)| (e.0@, e.1@)) =~= meeting_sites());
    let name = chars_of(lname);
    match first_app(&name, &apps) {
        Some(a) => {
            return Some(a);
        },
        None => {},
    }
    let chrome = chars_of("chrome");
    let msedge = chars_of("msedge");
    if chars_contain(&name, &chrome) || chars_contain(&name, &msedge) {
        let cmd = chars_of_all(lcmd);
        first_site(&cmd, &sites)
    } else {
        None
    }
}

/// The meeting that the running processes reveal, looking at the processes in the order given:
/// a process whose lower-cased name contains a desktop meeting application's pattern reveals
/// that application; otherwise a browser (its lower-cased name contains "chrome" or "msedge")
/// reveals the meeting whose site some lower-cased element of its command line names, Google
/// Meet's site tried before Microsoft Teams'.
pub fn detect_meeting_app(processes: &Vec<ProcessInfo>) -> (r: Option<String>)
    ensures
        r matches Some(s) ==> spec_detect(processes@) == Some(s@),
        r is None ==> spec_detect(processes@) is None,
        r matches Some(s) ==> exists|k: int|
            0 <= k < processes@.len() && process_meeting(#[trigger] processes@[k]) == Some(s@) && forall|j: int|
                0 <= j < k ==> process_meeting(#[trigger] processes@[j]) is None,
        r is None <==> forall|k: int|
            0 <= k < processes@.len() ==> process_meeting(#[trigger] processes@[k]) is None,
{
    proof {
        lemma_detect_first_revealing(processes@);
    }
    let ghost ps = processes@;
    let mut i: usize = 0;
    assert(ps.skip(0) =~= ps);
    while i < processes.len()
        invariant
            i <= ps.len(),
            ps == processes@,
            spec_detect(ps) == spec_detect(ps.skip(i as int)),
        decreases ps.len() - i,
    {
        let p = &processes[i];
        assert(ps.skip(i as int)[0] == *p);
        assert(ps.skip(i as int).drop_first() =~= ps.skip(i + 1));
        let lname = to_lowercase(p.name.as_str());
        let lcmd = lowered_command(&p.cmd);
        match meeting_from_lowered_process(lname.as_str(), &lcmd) {
            Some(m) => {
                proof {
                    lemma_detect_first_revealing(processes@);
                }
                return Some(m);
            },
            None => {},
        }
        i = i + 1;
    }
    assert(ps.skip(i as int).len() == 0);
    None
}

} // verus!
