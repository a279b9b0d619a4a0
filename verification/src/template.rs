use vstd::prelude::*;
use vstd::string::*;
use vstd::utf8::is_ascii_chars;

use crate::text::{
    all_clean, decimal, is_clean_tag, joined, joined_tags_read_back, no_comma, push_decimal,
    split_tags, tag_list,
};

verus! {

broadcast use vstd::string::group_string_axioms;

/// Where a template's files come from.
pub enum TemplateSource {
    /// A Git repository, optionally at a branch.
    Git { url: String, branch: Option<String> },
    /// A directory on this machine.
    Local { path: String },
    /// A template shipped with the tool.
    Builtin { id: String },
}

/// A template in the marketplace registry.
pub struct TemplateEntry {
    pub name: String,
    pub version: String,
    pub description: String,
    pub author: String,
    pub tags: Vec<String>,
    pub source: TemplateSource,
    pub created_at: String,
    pub updated_at: String,
    pub downloads: u64,
    pub verified: bool,
}

// ── search / publish: tags ───────────────────────────────────────────────────

/// The tag filter of a search: the comma-separated tags read as a list, when tags were
/// given.
pub fn search_tag_filter(tags: &Option<String>) -> (filter: Option<Vec<String>>)
    ensures
        match filter {
            Some(list) => tags is Some && list.deep_view() == tag_list(tags->0@),
            None => tags is None,
        },
{
    match tags {
        Some(t) => Some(split_tags(t.as_str())),
        None => None,
    }
}

/// The tags a template is published with when none are given.
pub open spec fn default_publish_tags() -> Seq<Seq<char>> {
    seq!["soroban"@, "contract"@]
}

/// The default tags are `soroban` and `contract`, clean tags that the marketplace shows as
/// "soroban, contract" and that read back as themselves.
pub proof fn default_tags_are_clean()
    ensures
        default_publish_tags() == seq!["soroban"@, "contract"@],
        all_clean(default_publish_tags()),
        tag_list(joined(default_publish_tags(), ", "@)) == default_publish_tags(),
{
    reveal_strlit("soroban");
    reveal_strlit("contract");
    let a = "soroban"@;
    let b = "contract"@;
    assert(no_comma(a));
    assert(no_comma(b));
    assert(is_clean_tag(a));
    assert(is_clean_tag(b));
    let tags = default_publish_tags();
    assert(all_clean(tags)) by {
        assert forall|i: int| 0 <= i < tags.len() implies is_clean_tag(#[trigger] tags[i]) by {
            if i == 0 {
                assert(tags[i] == a);
            } else {
                assert(tags[i] == b);
            }
        }
    }
    joined_tags_read_back(tags);
}

/// The tags to publish a template with: the comma-separated tags given, read as a list,
/// else `soroban` and `contract`.
pub fn publish_tags(tags: &Option<String>) -> (list: Vec<String>)
    ensures
        list.deep_view() == match tags {
            Some(t) => tag_list(t@),
            None => default_publish_tags(),
        },
{
    match tags {
        Some(t) => split_tags(t.as_str()),
        None => {
            let mut list: Vec<String> = Vec::new();
            list.push(String::from_str("soroban"));
            list.push(String::from_str("contract"));
            assert(list.deep_view() =~= default_publish_tags());
            list
        },
    }
}

// ── publish: name ────────────────────────────────────────────────────────────

/// The name to publish a template under: the one given, else the last component of its
/// directory's path (where that is valid UTF-8), else `my-template`.
pub fn template_name(name: Option<String>, dir_name: Option<String>) -> (n: String)
    ensures
        n@ == match name {
            Some(given) => given@,
            None => match dir_name {
                Some(d) => d@,
                None => "my-template"@,
            },
        },
{
    match name {
        Some(given) => given,
        None => match dir_name {
            Some(d) => d,
            None => String::from_str("my-template"),
        },
    }
}

// ── show ─────────────────────────────────────────────────────────────────────

/// The source rows of a template's details.
pub open spec fn spec_source_details(source: TemplateSource) -> Seq<(Seq<char>, Seq<char>)> {
    match source {
        TemplateSource::Git { url, branch } => {
            let rows = seq![("Source"@, "Git Repository"@), ("URL"@, url@)];
            match branch {
                Some(b) => rows.push(("Branch"@, b@)),
                None => rows,
            }
        },
        TemplateSource::Local { path } => seq![("Source"@, "Local"@), ("Path"@, path@)],
        TemplateSource::Builtin { id } => seq![("Source"@, "Built-in"@), ("ID"@, id@)],
    }
}

/// A template's source details name its kind first; a Git source then shows its own URL,
/// whether or not it names a branch, and a branch row exactly when it names one; a local
/// source shows its path and a built-in one its id.
pub proof fn source_details_show_the_source(source: TemplateSource)
    ensures
        spec_source_details(source)[0].0 == "Source"@,
        match source {
            TemplateSource::Git { url, branch } => {
                &&& spec_source_details(source)[0].1 == "Git Repository"@
                &&& spec_source_details(source)[1] == ("URL"@, url@)
                &&& spec_source_details(source).len() == (if branch is Some { 3int } else { 2int })
                &&& branch matches Some(b) ==> spec_source_details(source)[2] == ("Branch"@, b@)
            },
            TemplateSource::Local { path } => {
                &&& spec_source_details(source) == seq![("Source"@, "Local"@), ("Path"@, path@)]
            },
            TemplateSource::Builtin { id } => {
                &&& spec_source_details(source) == seq![("Source"@, "Built-in"@), ("ID"@, id@)]
            },
        },
{
}

/// The rows that describe where a template comes from, each a label and a value.
pub fn source_details(source: &TemplateSource) -> (rows: Vec<(String, String)>)
    ensures
        rows.deep_view() == spec_source_details(*source),
{
    let mut rows: Vec<(String, String)> = Vec::new();
    match source {
        TemplateSource::Git { url, branch } => {
            rows.push((String::from_str("Source"), String::from_str("Git Repository")));
            rows.push((String::from_str("URL"), url.clone()));
            match branch {
                Some(b) => rows.push((String::from_str("Branch"), b.clone())),
                None => {},
            }
        },
        TemplateSource::Local { path } => {
            rows.push((String::from_str("Source"), String::from_str("Local")));
            rows.push((String::from_str("Path"), path.clone()));
        },
        TemplateSource::Builtin { id } => {
            rows.push((String::from_str("Source"), String::from_str("Built-in")));
            rows.push((String::from_str("ID"), id.clone()));
        },
    }
    assert(rows.deep_view() =~= spec_source_details(*source));
    rows
}

/// The marker after a template's name: a check mark for a verified template.
pub fn verified_mark(verified: bool) -> (m: &'static str)
    ensures
        m@ == (if verified {
            " \u{2713}"@
        } else {
            ""@
        }),
{
    if verified {
        " \u{2713}"
    } else {
        ""
    }
}

/// The command that creates a project from the named template.
pub fn usage_command(name: &str) -> (s: String)
    ensures
        s@ == "starforge new contract my-project --template "@ + name@ + " --from marketplace"@,
{
    let mut s = String::from_str("starforge new contract my-project --template ");
    s.append(name);
    s.append(" --from marketplace");
    s
}

/// The heading of a template's details.
pub fn show_title(name: &str) -> (s: String)
    ensures
        s@ == "Template: "@ + name@,
{
    let mut s = String::from_str("Template: ");
    s.append(name);
    s
}

// ── search / list ────────────────────────────────────────────────────────────

/// The count line above search results.
pub fn found_text(count: usize) -> (s: String)
    ensures
        s@ == "  Found "@ + decimal(count as nat) + " template(s):\n"@,
{
    let mut s = String::from_str("  Found ");
    push_decimal(&mut s, count as u64);
    s.append(" template(s):\n");
    s
}

/// The count line above the list of all templates.
pub fn available_text(count: usize) -> (s: String)
    ensures
        s@ == "  "@ + decimal(count as nat) + " template(s) available:\n"@,
{
    let mut s = String::from_str("  ");
    push_decimal(&mut s, count as u64);
    s.append(" template(s) available:\n");
    s
}

/// The downloads figure of a listed template, as in `"12 downloads"`.
pub fn downloads_text(downloads: u64) -> (s: String)
    ensures
        s@ == decimal(downloads as nat) + " downloads"@,
{
    let mut s = String::new();
    push_decimal(&mut s, downloads);
    s.append(" downloads");
    s
}

// ── publish / remove ─────────────────────────────────────────────────────────

/// The confirmation after publishing a template.
pub fn published_text(name: &str) -> (s: String)
    ensures
        s@ == "Template '"@ + name@ + "' published successfully!"@,
{
    let mut s = String::from_str("Template '");
    s.append(name);
    s.append("' published successfully!");
    s
}

/// The confirmation after removing a template.
pub fn removed_text(name: &str) -> (s: String)
    ensures
        s@ == "Template '"@ + name@ + "' removed from registry"@,
{
    let mut s = String::from_str("Template '");
    s.append(name);
    s.append("' removed from registry");
    s
}

/// The directory to delete along with a removed template: its path, for a local
/// template only.
pub fn local_directory(source: &TemplateSource) -> (dir: Option<String>)
    ensures
        match *source {
            TemplateSource::Local { path } => dir.deep_view() == Some(path@),
            _ => dir is None,
        },
{
    match source {
        TemplateSource::Local { path } => Some(path.clone()),
        _ => None,
    }
}

// ── init ─────────────────────────────────────────────────────────────────────

/// The RFC 3339 text that chrono writes for the UTC instant `secs` seconds and `nanos`
/// nanoseconds after the Unix epoch, or `None` where chrono has no such instant.
pub uninterp spec fn rfc3339_of(secs: i64, nanos: u32) -> Option<Seq<char>>;

/// Whether `s` is a timestamp read from the clock: the ASCII RFC 3339 text of an instant
/// at or after the Unix epoch with a nanosecond part below one second.
pub open spec fn is_clock_stamp(s: Seq<char>) -> bool {
    &&& is_ascii_chars(s)
    &&& exists|secs: i64, nanos: u32|
        0 <= secs && nanos < 1_000_000_000 && #[trigger] rfc3339_of(secs, nanos) == Some(s)
}

/// std's `SystemTime`, a reading of the system clock, carried through opaquely.
#[verifier::external_type_specification]
#[verifier::external_body]
pub struct ExSystemTime(std::time::SystemTime);

/// std's `SystemTime::now`: the system clock's current reading. Nothing is stated of it: it
/// comes from the clock.
#[verifier::external_body]
fn system_now() -> (t: std::time::SystemTime) {
    std::time::SystemTime::now()
}

/// std's `SystemTime::duration_since(UNIX_EPOCH)`: how long after the Unix epoch the reading
/// lies, or `None` where it lies before it (std's error case). Nothing is stated of the
/// length: the reading is opaque.
#[verifier::external_body]
fn since_unix_epoch(t: &std::time::SystemTime) -> (d: Option<core::time::Duration>) {
    match t.duration_since(std::time::UNIX_EPOCH) {
        Ok(d) => Some(d),
        Err(_) => None,
    }
}

/// std's `Duration::as_secs`: the whole seconds of a duration. Nothing is stated of it: the
/// duration is opaque.
pub assume_specification[ core::time::Duration::as_secs ](d: &core::time::Duration) -> (secs: u64);

/// std's `Duration::subsec_nanos`: the nanoseconds past the whole seconds, which std
/// documents as always less than one billion.
pub assume_specification[ core::time::Duration::subsec_nanos ](d: &core::time::Duration) -> (nanos: u32)
    ensures
        nanos < 1_000_000_000,
;

/// The current time as whole seconds after the Unix epoch and the nanoseconds past them, or
/// `None` where the clock reads before the epoch.
pub fn unix_time() -> (t: Option<(u64, u32)>)
    ensures
        t matches Some((_, nanos)) ==> nanos < 1_000_000_000,
{
    let now = system_now();
    match since_unix_epoch(&now) {
        Some(d) => Some((d.as_secs(), d.subsec_nanos())),
        None => None,
    }
}

/// chrono's `DateTime::<Utc>::from_timestamp(secs, nanos)` followed by `to_rfc3339`: the
/// instant's RFC 3339 text (`YYYY-MM-DDTHH:MM:SS`, a fraction where there are nanoseconds,
/// then `+00:00`), all ASCII. `from_timestamp` gives `None` only for an out-of-range second
/// count or an invalid nanosecond part, so every instant from the epoch to the end of year
/// 9999 with fewer than a billion nanoseconds has its text.
#[verifier::external_body]
fn rfc3339_at(secs: i64, nanos: u32) -> (r: Option<String>)
    ensures
        r.deep_view() == rfc3339_of(secs, nanos),
        r matches Some(s) ==> is_ascii_chars(s@),
        0 <= secs <= 253_402_300_799 && nanos < 1_000_000_000 ==> r is Some,
{
    match chrono::DateTime::<chrono::Utc>::from_timestamp(secs, nanos) {
        Some(dt) => Some(dt.to_rfc3339()),
        None => None,
    }
}

/// The RFC 3339 text that a clock reading (whole seconds after the Unix epoch and the
/// nanoseconds past them) gives, or `None` where there was no reading or chrono cannot write
/// that instant.
pub open spec fn spec_stamp_of_reading(reading: Option<(u64, u32)>) -> Option<Seq<char>> {
    match reading {
        Some((secs, nanos)) => if secs <= 9_223_372_036_854_775_807 {
            rfc3339_of(secs as i64, nanos)
        } else {
            None
        },
        None => None,
    }
}

/// Writes a clock reading as an RFC 3339 timestamp: every reading up to the end of year 9999
/// with a nanosecond part below one second has its text, which is ASCII.
pub fn stamp_of_reading(reading: Option<(u64, u32)>) -> (s: Option<String>)
    ensures
        s.deep_view() == spec_stamp_of_reading(reading),
        reading matches Some((secs, nanos)) && secs <= 253_402_300_799 && nanos < 1_000_000_000
            ==> s is Some,
        s matches Some(t) ==> is_ascii_chars(t@),
{
    match reading {
        None => None,
        Some((secs, nanos)) => {
            if secs > 9_223_372_036_854_775_807 {
                None
            } else {
                rfc3339_at(secs as i64, nanos)
            }
        },
    }
}

/// The current time as an RFC 3339 timestamp: the text of the clock's reading, or `None`
/// where the clock reads before the Unix epoch or past what chrono can write.
pub fn clock_stamp() -> (s: Option<String>)
    ensures
        s matches Some(t) ==> is_clock_stamp(t@),
{
    let reading = unix_time();
    let s = stamp_of_reading(reading);
    proof {
        if s is Some {
            let (secs, nanos) = reading->0;
            assert(rfc3339_of(secs as i64, nanos) == Some(s->0@));
        }
    }
    s
}

/// The names of the example templates, in the order they are added.
pub open spec fn example_names() -> Seq<Seq<char>> {
    seq!["uniswap-v2"@, "lending-pool"@, "governance"@, "multisig-wallet"@]
}

/// The descriptions of the example templates.
pub open spec fn example_descriptions() -> Seq<Seq<char>> {
    seq![
        "Uniswap V2 style automated market maker (AMM) DEX implementation"@,
        "Decentralized lending and borrowing protocol with collateralization"@,
        "DAO governance contract with proposal creation and voting mechanisms"@,
        "Multi-signature wallet with threshold-based transaction approval"@,
    ]
}

/// The tags of the example templates.
pub open spec fn example_tags() -> Seq<Seq<Seq<char>>> {
    seq![
        seq!["defi"@, "dex"@, "amm"@, "swap"@],
        seq!["defi"@, "lending"@, "borrowing"@],
        seq!["dao"@, "governance"@, "voting"@],
        seq!["wallet"@, "multisig"@, "security"@],
    ]
}

/// Whether `e` is the `i`-th example template, stamped `created` and `updated`: version
/// 1.0.0 by the Stellar Community, from the `main` branch of the Soroban examples
/// repository, verified, with no downloads yet.
pub open spec fn is_example(e: TemplateEntry, i: int, created: Seq<char>, updated: Seq<char>) -> bool {
    &&& e.name@ == example_names()[i]
    &&& e.version@ == "1.0.0"@
    &&& e.description@ == example_descriptions()[i]
    &&& e.author@ == "Stellar Community"@
    &&& e.tags.deep_view() == example_tags()[i]
    &&& e.source matches TemplateSource::Git { url, branch }
    &&& url@ == "https://github.com/stellar/soroban-examples"@
    &&& branch.deep_view() == Some("main"@)
    &&& e.created_at@ == created
    &&& e.updated_at@ == updated
    &&& e.downloads == 0
    &&& e.verified
}

fn strings3(a: &str, b: &str, c: &str) -> (v: Vec<String>)
    ensures
        v.deep_view() == seq![a@, b@, c@],
{
    let mut v: Vec<String> = Vec::new();
    v.push(String::from_str(a));
    v.push(String::from_str(b));
    v.push(String::from_str(c));
    assert(v.deep_view() =~= seq![a@, b@, c@]);
    v
}

/// Each example template carries the tags of what it is, fixed by its name: the AMM DEX
/// `uniswap-v2` is tagged defi, dex, amm, swap; `lending-pool` defi, lending, borrowing;
/// `governance` dao, governance, voting; `multisig-wallet` wallet, multisig, security. The
/// four examples have four different names, all verified and at version 1.0.0.
pub proof fn examples_are_tagged_by_what_they_are(
    e: TemplateEntry,
    i: int,
    created: Seq<char>,
    updated: Seq<char>,
)
    requires
        0 <= i < 4,
        is_example(e, i, created, updated),
    ensures
        e.name@ == "uniswap-v2"@ ==> e.tags.deep_view() == seq!["defi"@, "dex"@, "amm"@, "swap"@],
        e.name@ == "lending-pool"@ ==> e.tags.deep_view() == seq!["defi"@, "lending"@, "borrowing"@],
        e.name@ == "governance"@ ==> e.tags.deep_view() == seq!["dao"@, "governance"@, "voting"@],
        e.name@ == "multisig-wallet"@ ==> e.tags.deep_view() == seq!["wallet"@, "multisig"@, "security"@],
        i == 0 <==> e.name@ == "uniswap-v2"@,
        i == 1 <==> e.name@ == "lending-pool"@,
        i == 2 <==> e.name@ == "governance"@,
        i == 3 <==> e.name@ == "multisig-wallet"@,
        e.verified,
        e.version@ == "1.0.0"@,
{
    reveal_strlit("uniswap-v2");
    reveal_strlit("lending-pool");
    reveal_strlit("governance");
    reveal_strlit("multisig-wallet");
    // The names begin with different letters, so no two of them are equal.
    assert("uniswap-v2"@[0] == 'u');
    assert("lending-pool"@[0] == 'l');
    assert("governance"@[0] == 'g');
    assert("multisig-wallet"@[0] == 'm');
}

/// The `i`-th example template (in the order they are added), stamped with the given
/// times.
pub fn example_template(i: usize, created_at: String, updated_at: String) -> (e: TemplateEntry)
    requires
        i < 4,
    ensures
        is_example(e, i as int, created_at@, updated_at@),
{
    let mut tags: Vec<String>;
    let name: &str;
    let description: &str;
    if i == 0 {
        name = "uniswap-v2";
        description = "Uniswap V2 style automated market maker (AMM) DEX implementation";
        tags = strings3("defi", "dex", "amm");
        tags.push(String::from_str("swap"));
        assert(tags.deep_view() =~= example_tags()[0]);
    } else if i == 1 {
        name = "lending-pool";
        description = "Decentralized lending and borrowing protocol with collateralization";
        tags = strings3("defi", "lending", "borrowing");
        assert(tags.deep_view() =~= example_tags()[1]);
    } else if i == 2 {
        name = "governance";
        description = "DAO governance contract with proposal creation and voting mechanisms";
        tags = strings3("dao", "governance", "voting");
        assert(tags.deep_view() =~= example_tags()[2]);
    } else {
        name = "multisig-wallet";
        description = "Multi-signature wallet with threshold-based transaction approval";
        tags = strings3("wallet", "multisig", "security");
        assert(tags.deep_view() =~= example_tags()[3]);
    }
    TemplateEntry {
        name: String::from_str(name),
        version: String::from_str("1.0.0"),
        description: String::from_str(description),
        author: String::from_str("Stellar Community"),
        tags,
        source: TemplateSource::Git {
            url: String::from_str("https://github.com/stellar/soroban-examples"),
            branch: Some(String::from_str("main")),
        },
        created_at,
        updated_at,
        downloads: 0,
        verified: true,
    }
}

/// The example templates stamped with the given times: the `i`-th is created at
/// `stamps[2 * i]` and updated at `stamps[2 * i + 1]`. `None` when any stamp is missing.
pub fn examples_from_stamps(stamps: &Vec<Option<String>>) -> (entries: Option<Vec<TemplateEntry>>)
    requires
        stamps.len() == 8,
    ensures
        entries is Some <==> forall|k: int| 0 <= k < 8 ==> #[trigger] stamps[k] is Some,
        entries matches Some(v) ==> {
            &&& v.len() == 4
            &&& forall|i: int|
                #![trigger v[i]]
                0 <= i < 4 ==> is_example(v[i], i, stamps[2 * i]->0@, stamps[2 * i + 1]->0@)
        },
{
    let mut entries: Vec<TemplateEntry> = Vec::new();
    let mut i: usize = 0;
    while i < 4
        invariant
            i <= 4,
            stamps.len() == 8,
            entries.len() == i,
            forall|k: int| 0 <= k < 2 * i ==> #[trigger] stamps[k] is Some,
            forall|j: int|
                #![trigger entries[j]]
                0 <= j < i ==> is_example(entries[j], j, stamps[2 * j]->0@, stamps[2 * j + 1]->0@),
        decreases 4 - i,
    {
        let created = match &stamps[2 * i] {
            Some(t) => t.clone(),
            None => return None,
        };
        let updated = match &stamps[2 * i + 1] {
            Some(t) => t.clone(),
            None => return None,
        };
        entries.push(example_template(i, created, updated));
        i = i + 1;
    }
    Some(entries)
}

/// The example templates that initialise the registry, each stamped with the clock: the
/// four verified examples, in order. `None` where the clock gives no timestamp.
pub fn example_templates() -> (entries: Option<Vec<TemplateEntry>>)
    ensures
        entries matches Some(v) ==> {
            &&& v.len() == 4
            &&& forall|i: int|
                0 <= i < 4 ==> {
                    &&& is_example(#[trigger] v[i], i, v[i].created_at@, v[i].updated_at@)
                    &&& is_clock_stamp(v[i].created_at@)
                    &&& is_clock_stamp(v[i].updated_at@)
                }
        },
{
    let mut stamps: Vec<Option<String>> = Vec::new();
    let mut k: usize = 0;
    while k < 8
        invariant
            k <= 8,
            stamps.len() == k,
            forall|j: int| 0 <= j < k ==> (#[trigger] stamps[j] matches Some(t) ==> is_clock_stamp(t@)),
        decreases 8 - k,
    {
        stamps.push(clock_stamp());
        k = k + 1;
    }
    let entries = examples_from_stamps(&stamps);
    proof {
        if entries is Some {
            let v = entries->0;
            assert forall|i: int| 0 <= i < 4 implies {
                &&& is_example(#[trigger] v[i], i, v[i].created_at@, v[i].updated_at@)
                &&& is_clock_stamp(v[i].created_at@)
                &&& is_clock_stamp(v[i].updated_at@)
            } by {
                assert(stamps[2 * i] is Some);
                assert(stamps[2 * i + 1] is Some);
            }
        }
    }
    entries
}

/// The confirmation after the registry was initialised with `count` examples.
pub fn initialized_text(count: usize) -> (s: String)
    ensures
        s@ == "Template registry initialized with "@ + decimal(count as nat) + " example templates"@,
{
    let mut s = String::from_str("Template registry initialized with ");
    push_decimal(&mut s, count as u64);
    s.append(" example templates");
    s
}

} // verus!
