//! The `get-location-time` tool: the time zone of a country and the
//! current time there.
use vstd::prelude::*;
use crate::text::{push_str, str_eq};
use crate::tool_args::{ToolArgs, arg_str, missing_message};
use crate::schema::{Json, JsonV, members_view};
use crate::tool_schema::{
    object_schema_view, property_view, new_members, push_member, property, object_schema,
};

verus! {

/// The time zone (IANA name) of each supported ISO 3166-1 alpha-2 code.
pub open spec fn country_zones() -> Seq<(Seq<char>, Seq<char>)> {
    seq![
        ("AE"@, "Asia/Dubai"@),
        ("AR"@, "America/Argentina/Buenos_Aires"@),
        ("AT"@, "Europe/Vienna"@),
        ("AU"@, "Australia/Sydney"@),
        ("BE"@, "Europe/Brussels"@),
        ("BG"@, "Europe/Sofia"@),
        ("BO"@, "America/La_Paz"@),
        ("BR"@, "America/Sao_Paulo"@),
        ("CA"@, "America/Toronto"@),
        ("CH"@, "Europe/Zurich"@),
        ("CL"@, "America/Santiago"@),
        ("CN"@, "Asia/Shanghai"@),
        ("CO"@, "America/Bogota"@),
        ("CZ"@, "Europe/Prague"@),
        ("DE"@, "Europe/Berlin"@),
        ("DK"@, "Europe/Copenhagen"@),
        ("EC"@, "America/Guayaquil"@),
        ("EG"@, "Africa/Cairo"@),
        ("ES"@, "Europe/Madrid"@),
        ("FI"@, "Europe/Helsinki"@),
        ("FR"@, "Europe/Paris"@),
        ("GB"@, "Europe/London"@),
        ("GR"@, "Europe/Athens"@),
        ("HK"@, "Asia/Hong_Kong"@),
        ("HU"@, "Europe/Budapest"@),
        ("ID"@, "Asia/Jakarta"@),
        ("IE"@, "Europe/Dublin"@),
        ("IL"@, "Asia/Jerusalem"@),
        ("IN"@, "Asia/Kolkata"@),
        ("IR"@, "Asia/Tehran"@),
        ("IT"@, "Europe/Rome"@),
        ("JP"@, "Asia/Tokyo"@),
        ("KR"@, "Asia/Seoul"@),
        ("MX"@, "America/Mexico_City"@),
        ("MY"@, "Asia/Kuala_Lumpur"@),
        ("NG"@, "Africa/Lagos"@),
        ("NL"@, "Europe/Amsterdam"@),
        ("NO"@, "Europe/Oslo"@),
        ("NZ"@, "Pacific/Auckland"@),
        ("PE"@, "America/Lima"@),
        ("PH"@, "Asia/Manila"@),
        ("PK"@, "Asia/Karachi"@),
        ("PL"@, "Europe/Warsaw"@),
        ("PT"@, "Europe/Lisbon"@),
        ("PY"@, "America/Asuncion"@),
        ("QA"@, "Asia/Qatar"@),
        ("RO"@, "Europe/Bucharest"@),
        ("RU"@, "Europe/Moscow"@),
        ("SA"@, "Asia/Riyadh"@),
        ("SE"@, "Europe/Stockholm"@),
        ("SG"@, "Asia/Singapore"@),
        ("TH"@, "Asia/Bangkok"@),
        ("TR"@, "Europe/Istanbul"@),
        ("TW"@, "Asia/Taipei"@),
        ("UA"@, "Europe/Kyiv"@),
        ("US"@, "America/New_York"@),
        ("UY"@, "America/Montevideo"@),
        ("VE"@, "America/Caracas"@),
        ("VN"@, "Asia/Ho_Chi_Minh"@),
        ("ZA"@, "Africa/Johannesburg"@),
    ]
}

fn country_zone_list() -> (r: Vec<(&'static str, &'static str)>)
    ensures
        r@.map_values(|p: (&str, &str)| (p.0@, p.1@)) == country_zones(),
{
    let r = vec![
        ("AE", "Asia/Dubai"),
        ("AR", "America/Argentina/Buenos_Aires"),
        ("AT", "Europe/Vienna"),
        ("AU", "Australia/Sydney"),
        ("BE", "Europe/Brussels"),
        ("BG", "Europe/Sofia"),
        ("BO", "America/La_Paz"),
        ("BR", "America/Sao_Paulo"),
        ("CA", "America/Toronto"),
        ("CH", "Europe/Zurich"),
        ("CL", "America/Santiago"),
        ("CN", "Asia/Shanghai"),
        ("CO", "America/Bogota"),
        ("CZ", "Europe/Prague"),
        ("DE", "Europe/Berlin"),
        ("DK", "Europe/Copenhagen"),
        ("EC", "America/Guayaquil"),
        ("EG", "Africa/Cairo"),
        ("ES", "Europe/Madrid"),
        ("FI", "Europe/Helsinki"),
        ("FR", "Europe/Paris"),
        ("GB", "Europe/London"),
        ("GR", "Europe/Athens"),
        ("HK", "Asia/Hong_Kong"),
        ("HU", "Europe/Budapest"),
        ("ID", "Asia/Jakarta"),
        ("IE", "Europe/Dublin"),
        ("IL", "Asia/Jerusalem"),
        ("IN", "Asia/Kolkata"),
        ("IR", "Asia/Tehran"),
        ("IT", "Europe/Rome"),
        ("JP", "Asia/Tokyo"),
        ("KR", "Asia/Seoul"),
        ("MX", "America/Mexico_City"),
        ("MY", "Asia/Kuala_Lumpur"),
        ("NG", "Africa/Lagos"),
        ("NL", "Europe/Amsterdam"),
        ("NO", "Europe/Oslo"),
        ("NZ", "Pacific/Auckland"),
        ("PE", "America/Lima"),
        ("PH", "Asia/Manila"),
        ("PK", "Asia/Karachi"),
        ("PL", "Europe/Warsaw"),
        ("PT", "Europe/Lisbon"),
        ("PY", "America/Asuncion"),
        ("QA", "Asia/Qatar"),
        ("RO", "Europe/Bucharest"),
        ("RU", "Europe/Moscow"),
        ("SA", "Asia/Riyadh"),
        ("SE", "Europe/Stockholm"),
        ("SG", "Asia/Singapore"),
        ("TH", "Asia/Bangkok"),
        ("TR", "Europe/Istanbul"),
        ("TW", "Asia/Taipei"),
        ("UA", "Europe/Kyiv"),
        ("US", "America/New_York"),
        ("UY", "America/Montevideo"),
        ("VE", "America/Caracas"),
        ("VN", "Asia/Ho_Chi_Minh"),
        ("ZA", "Africa/Johannesburg"),
    ];
    assert(r@.map_values(|p: (&str, &str)| (p.0@, p.1@)) =~= country_zones());
    r
}

/// The time zone of a country code.
pub open spec fn zone_of(table: Seq<(Seq<char>, Seq<char>)>, code: Seq<char>) -> Option<Seq<char>>
    decreases table.len(),
{
    if table.len() == 0 {
        None
    } else if table[0].0 == code {
        Some(table[0].1)
    } else {
        zone_of(table.drop_first(), code)
    }
}

proof fn lemma_zone_skip(t: Seq<(Seq<char>, Seq<char>)>, code: Seq<char>, i: int)
    requires
        0 <= i <= t.len(),
        forall|j: int| 0 <= j < i ==> t[j].0 != code,
    ensures
        zone_of(t, code) == zone_of(t.subrange(i, t.len() as int), code),
    decreases i,
{
    if i > 0 {
        lemma_zone_skip(t.drop_first(), code, i - 1);
        assert(t.drop_first().subrange(i - 1, t.drop_first().len() as int) =~= t.subrange(i, t.len() as int));
    } else {
        assert(t.subrange(0, t.len() as int) =~= t);
    }
}

/// The time zone (IANA name) of a supported country code.
pub fn timezone_for_country(country_code: &str) -> (r: Option<&'static str>)
    ensures
        match r {
            Some(z) => zone_of(country_zones(), country_code@) == Some(z@),
            None => zone_of(country_zones(), country_code@) is None,
        },
{
    let table = country_zone_list();
    let ghost t = country_zones();
    let mut i: usize = 0;
    while i < table.len()
        invariant
            i <= table@.len(),
            t == country_zones(),
            table@.map_values(|p: (&str, &str)| (p.0@, p.1@)) == t,
            forall|j: int| 0 <= j < i ==> t[j].0 != country_code@,
        decreases table@.len() - i,
    {
        assert(t[i as int] == (table@[i as int].0@, table@[i as int].1@));
        if str_eq(table[i].0, country_code) {
            proof {
                lemma_zone_skip(t, country_code@, i as int);
            }
            return Some(table[i].1);
        }
        i = i + 1;
    }
    proof {
        lemma_zone_skip(t, country_code@, t.len() as int);
    }
    None
}

/// Whether `chrono::DateTime::<Utc>::from_timestamp(secs, nsecs)` gives an
/// instant (the seconds are in chrono's range and the nanoseconds valid).
pub uninterp spec fn utc_instant_exists(secs: i64, nsecs: u32) -> bool;

/// The instant `(secs, nsecs)` shown in the IANA zone `zone` as
/// `DateTime<Tz>` displays it (`with_timezone(&tz).to_string()`), or the
/// display of chrono-tz's error when `zone` names no zone.
pub uninterp spec fn zone_time_text(secs: i64, nsecs: u32, zone: Seq<char>) -> Seq<char>;

/// `chrono::Utc::now`, as its UNIX seconds and the nanoseconds past them
/// (`timestamp`, `timestamp_subsec_nanos`). The values depend on the clock;
/// what is stated is what chrono documents of every `DateTime`: the pair
/// gives the same instant back through `DateTime::from_timestamp`.
/// (`Utc::now` panics if the system clock is before 1970.)
#[verifier::external_body]
fn now_instant() -> (r: (i64, u32))
    ensures
        utc_instant_exists(r.0, r.1),
{
    let now = chrono::Utc::now();
    (now.timestamp(), now.timestamp_subsec_nanos())
}

/// `DateTime::from_timestamp(secs, nsecs)` shown in the zone that
/// `zone.parse::<chrono_tz::Tz>()` reads, with `to_string`; the display of
/// the parse error when it reads none.
#[verifier::external_body]
fn render_in_zone(secs: i64, nsecs: u32, zone: &str) -> (r: String)
    requires
        utc_instant_exists(secs, nsecs),
    ensures
        r@ == zone_time_text(secs, nsecs, zone@),
{
    let instant = chrono::DateTime::from_timestamp(secs, nsecs).unwrap();
    match zone.parse::<chrono_tz::Tz>() {
        Ok(tz) => instant.with_timezone(&tz).to_string(),
        Err(e) => e.to_string(),
    }
}

/// "The current time in {code} ({zone}) is: ".
pub open spec fn time_prefix(code: Seq<char>, zone: Seq<char>) -> Seq<char> {
    "The current time in "@ + code + " ("@ + zone + ") is: "@
}

/// "The current time in {code} ({zone}) is: {time}".
pub fn time_message(country_code: &str, zone: &str, time_text: &str) -> (r: String)
    ensures
        r@ == time_prefix(country_code@, zone@) + time_text@,
{
    let mut s = String::from_str("The current time in ");
    push_str(&mut s, country_code);
    push_str(&mut s, " (");
    push_str(&mut s, zone);
    push_str(&mut s, ") is: ");
    push_str(&mut s, time_text);
    s
}

/// The `get-location-time` tool.
pub struct GetTime {}

/// What the tool says of `country_code`.
pub const COUNTRY_CODE_DOC: &'static str = "ISO 3166-1 alpha-2 country code (e.g., 'US', 'JP', 'FR')";

/// What the tool says of `$explain`.
pub const EXPLAIN_DOC: &'static str = "A brief explanation of what you are doing with this tool.";

/// The tool's parameters: `country_code`, required, and `$explain`.
pub open spec fn get_time_parameters() -> JsonV {
    object_schema_view(
        seq![
            ("country_code"@, property_view("string"@, COUNTRY_CODE_DOC@)),
            ("$explain"@, property_view("string"@, EXPLAIN_DOC@)),
        ],
        seq!["country_code"@],
    )
}

impl GetTime {
    pub fn new() -> (r: Self) {
        GetTime {  }
    }

    /// The name the model calls the tool by.
    pub fn name(&self) -> (r: String)
        ensures
            r@ == "get-location-time"@,
    {
        String::from_str("get-location-time")
    }

    /// What the model is told the tool does.
    pub fn description(&self) -> (r: String)
        ensures
            r@ == "Get the current time of the location based on the country code"@,
    {
        String::from_str("Get the current time of the location based on the country code")
    }

    /// The schema of the tool's parameters.
    pub fn json_schema(&self) -> (r: Json)
        ensures
            r@ == get_time_parameters(),
    {
        let mut props = new_members();
        push_member(&mut props, "country_code", property("string", COUNTRY_CODE_DOC));
        push_member(&mut props, "$explain", property("string", EXPLAIN_DOC));
        let mut required: Vec<&str> = Vec::new();
        required.push("country_code");
        assert(required@.map_values(|s: &str| s@) =~= seq!["country_code"@]);
        assert(members_view(props@) =~= seq![
            ("country_code"@, property_view("string"@, COUNTRY_CODE_DOC@)),
            ("$explain"@, property_view("string"@, EXPLAIN_DOC@)),
        ]);
        object_schema(props, &required)
    }

    /// The time of a country at the instant `(secs, nsecs)`: an error for an
    /// unsupported code, else [`time_message`] around that instant shown in
    /// the country's zone.
    pub fn time_by_country_at(&self, country_code: &str, secs: i64, nsecs: u32) -> (r: Result<String, String>)
        requires
            utc_instant_exists(secs, nsecs),
        ensures
            match zone_of(country_zones(), country_code@) {
                None => r matches Err(e) && e@ == "Unsupported country code: "@ + country_code@,
                Some(z) => r matches Ok(s) && s@ == time_prefix(country_code@, z) + zone_time_text(secs, nsecs, z),
            },
    {
        let zone = match timezone_for_country(country_code) {
            Some(z) => z,
            None => {
                let mut e = String::from_str("Unsupported country code: ");
                push_str(&mut e, country_code);
                return Err(e);
            },
        };
        let text = render_in_zone(secs, nsecs, zone);
        Ok(time_message(country_code, zone, text.as_str()))
    }

    /// The current time of a country: an error for an unsupported code, else
    /// [`time_message`] around the clock's instant shown in the country's zone.
    pub fn get_time_by_country(&self, country_code: &str) -> (r: Result<String, String>)
        ensures
            match zone_of(country_zones(), country_code@) {
                None => r matches Err(e) && e@ == "Unsupported country code: "@ + country_code@,
                Some(z) => r matches Ok(s) && exists|t: (i64, u32)|
                    utc_instant_exists(t.0, t.1) && s@ == time_prefix(country_code@, z) + zone_time_text(t.0, t.1, z),
            },
    {
        let now = now_instant();
        let r = self.time_by_country_at(country_code, now.0, now.1);
        proof {
            if let Some(z) = zone_of(country_zones(), country_code@) {
                assert(utc_instant_exists(now.0, now.1) && r->Ok_0@ == time_prefix(country_code@, z) + zone_time_text(now.0, now.1, z));
            }
        }
        r
    }

    /// The tool call: reads `country_code`, then answers the time there.
    pub fn execute(&self, args: &ToolArgs) -> (r: Result<String, String>)
        ensures
            match arg_str(*args, "country_code"@) {
                None => r matches Err(e) && e@ == missing_message("country_code"@),
                Some(code) => match zone_of(country_zones(), code) {
                    None => r matches Err(e) && e@ == "Unsupported country code: "@ + code,
                    Some(z) => r matches Ok(s) && exists|t: (i64, u32)|
                        utc_instant_exists(t.0, t.1) && s@ == time_prefix(code, z) + zone_time_text(t.0, t.1, z),
                },
            },
    {
        match args.get_str("country_code") {
            Some(code) => self.get_time_by_country(code.as_str()),
            None => Err(crate::tool_args::missing_param("country_code")),
        }
    }
}

} // verus!
