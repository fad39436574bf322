//! Time zone names: the Windows names that Exchange hands out, and the IANA
//! names they stand for.

use vstd::prelude::*;
use vstd::string::*;

use crate::exchange::moment;
use crate::text;

verus! {

/// Windows zones west of and at Greenwich.
pub open spec fn west(v: Seq<char>) -> Option<Seq<char>> {
    if v == "Dateline Standard Time"@ {
        Some("Etc/GMT+12"@)
    } else if v == "UTC-11"@ {
        Some("Etc/GMT+11"@)
    } else if v == "Aleutian Standard Time"@ {
        Some("America/Adak"@)
    } else if v == "Hawaiian Standard Time"@ {
        Some("Pacific/Honolulu"@)
    } else if v == "Marquesas Standard Time"@ {
        Some("Pacific/Marquesas"@)
    } else if v == "Alaskan Standard Time"@ {
        Some("America/Anchorage"@)
    } else if v == "UTC-09"@ {
        Some("Etc/GMT+9"@)
    } else if v == "Pacific Standard Time (Mexico)"@ {
        Some("America/Tijuana"@)
    } else if v == "UTC-08"@ {
        Some("Etc/GMT+8"@)
    } else if v == "Pacific Standard Time"@ {
        Some("America/Los_Angeles"@)
    } else if v == "US Mountain Standard Time"@ {
        Some("America/Phoenix"@)
    } else if v == "Mountain Standard Time (Mexico)"@ {
        Some("America/Mazatlan"@)
    } else if v == "Mountain Standard Time"@ {
        Some("America/Denver"@)
    } else if v == "Yukon Standard Time"@ {
        Some("America/Whitehorse"@)
    } else if v == "Central America Standard Time"@ {
        Some("America/Guatemala"@)
    } else if v == "Central Standard Time"@ {
        Some("America/Chicago"@)
    } else if v == "Easter Island Standard Time"@ {
        Some("Pacific/Easter"@)
    } else if v == "Central Standard Time (Mexico)"@ {
        Some("America/Mexico_City"@)
    } else if v == "Canada Central Standard Time"@ {
        Some("America/Regina"@)
    } else if v == "SA Pacific Standard Time"@ {
        Some("America/Bogota"@)
    } else if v == "Eastern Standard Time (Mexico)"@ {
        Some("America/Cancun"@)
    } else if v == "Eastern Standard Time"@ {
        Some("America/New_York"@)
    } else if v == "Haiti Standard Time"@ {
        Some("America/Port-au-Prince"@)
    } else if v == "Cuba Standard Time"@ {
        Some("America/Havana"@)
    } else if v == "US Eastern Standard Time"@ {
        Some("America/Indianapolis"@)
    } else if v == "Turks And Caicos Standard Time"@ {
        Some("America/Grand_Turk"@)
    } else if v == "Paraguay Standard Time"@ {
        Some("America/Asuncion"@)
    } else if v == "Atlantic Standard Time"@ {
        Some("America/Halifax"@)
    } else if v == "Venezuela Standard Time"@ {
        Some("America/Caracas"@)
    } else if v == "Central Brazilian Standard Time"@ {
        Some("America/Cuiaba"@)
    } else if v == "SA Western Standard Time"@ {
        Some("America/La_Paz"@)
    } else if v == "Pacific SA Standard Time"@ {
        Some("America/Santiago"@)
    } else if v == "Newfoundland Standard Time"@ {
        Some("America/St_Johns"@)
    } else if v == "Tocantins Standard Time"@ {
        Some("America/Araguaina"@)
    } else if v == "E. South America Standard Time"@ {
        Some("America/Sao_Paulo"@)
    } else if v == "SA Eastern Standard Time"@ {
        Some("America/Cayenne"@)
    } else if v == "Argentina Standard Time"@ {
        Some("America/Buenos_Aires"@)
    } else if v == "Greenland Standard Time"@ {
        Some("America/Godthab"@)
    } else if v == "Montevideo Standard Time"@ {
        Some("America/Montevideo"@)
    } else if v == "Magallanes Standard Time"@ {
        Some("America/Punta_Arenas"@)
    } else if v == "Saint Pierre Standard Time"@ {
        Some("America/Miquelon"@)
    } else if v == "Bahia Standard Time"@ {
        Some("America/Bahia"@)
    } else if v == "UTC-02"@ {
        Some("Etc/GMT+2"@)
    } else if v == "Azores Standard Time"@ {
        Some("Atlantic/Azores"@)
    } else if v == "Cape Verde Standard Time"@ {
        Some("Atlantic/Cape_Verde"@)
    } else if v == "UTC"@ {
        Some("Etc/UTC"@)
    } else {
        None
    }
}

fn find_west(v: &str) -> (r: Option<&'static str>)
    ensures
        match r {
            Some(z) => west(v@) == Some(z@),
            None => west(v@) is None,
        },
{
    if text::same(v, "Dateline Standard Time") {
        Some("Etc/GMT+12")
    } else if text::same(v, "UTC-11") {
        Some("Etc/GMT+11")
    } else if text::same(v, "Aleutian Standard Time") {
        Some("America/Adak")
    } else if text::same(v, "Hawaiian Standard Time") {
        Some("Pacific/Honolulu")
    } else if text::same(v, "Marquesas Standard Time") {
        Some("Pacific/Marquesas")
    } else if text::same(v, "Alaskan Standard Time") {
        Some("America/Anchorage")
    } else if text::same(v, "UTC-09") {
        Some("Etc/GMT+9")
    } else if text::same(v, "Pacific Standard Time (Mexico)") {
        Some("America/Tijuana")
    } else if text::same(v, "UTC-08") {
        Some("Etc/GMT+8")
    } else if text::same(v, "Pacific Standard Time") {
        Some("America/Los_Angeles")
    } else if text::same(v, "US Mountain Standard Time") {
        Some("America/Phoenix")
    } else if text::same(v, "Mountain Standard Time (Mexico)") {
        Some("America/Mazatlan")
    } else if text::same(v, "Mountain Standard Time") {
        Some("America/Denver")
    } else if text::same(v, "Yukon Standard Time") {
        Some("America/Whitehorse")
    } else if text::same(v, "Central America Standard Time") {
        Some("America/Guatemala")
    } else if text::same(v, "Central Standard Time") {
        Some("America/Chicago")
    } else if text::same(v, "Easter Island Standard Time") {
        Some("Pacific/Easter")
    } else if text::same(v, "Central Standard Time (Mexico)") {
        Some("America/Mexico_City")
    } else if text::same(v, "Canada Central Standard Time") {
        Some("America/Regina")
    } else if text::same(v, "SA Pacific Standard Time") {
        Some("America/Bogota")
    } else if text::same(v, "Eastern Standard Time (Mexico)") {
        Some("America/Cancun")
    } else if text::same(v, "Eastern Standard Time") {
        Some("America/New_York")
    } else if text::same(v, "Haiti Standard Time") {
        Some("America/Port-au-Prince")
    } else if text::same(v, "Cuba Standard Time") {
        Some("America/Havana")
    } else if text::same(v, "US Eastern Standard Time") {
        Some("America/Indianapolis")
    } else if text::same(v, "Turks And Caicos Standard Time") {
        Some("America/Grand_Turk")
    } else if text::same(v, "Paraguay Standard Time") {
        Some("America/Asuncion")
    } else if text::same(v, "Atlantic Standard Time") {
        Some("America/Halifax")
    } else if text::same(v, "Venezuela Standard Time") {
        Some("America/Caracas")
    } else if text::same(v, "Central Brazilian Standard Time") {
        Some("America/Cuiaba")
    } else if text::same(v, "SA Western Standard Time") {
        Some("America/La_Paz")
    } else if text::same(v, "Pacific SA Standard Time") {
        Some("America/Santiago")
    } else if text::same(v, "Newfoundland Standard Time") {
        Some("America/St_Johns")
    } else if text::same(v, "Tocantins Standard Time") {
        Some("America/Araguaina")
    } else if text::same(v, "E. South America Standard Time") {
        Some("America/Sao_Paulo")
    } else if text::same(v, "SA Eastern Standard Time") {
        Some("America/Cayenne")
    } else if text::same(v, "Argentina Standard Time") {
        Some("America/Buenos_Aires")
    } else if text::same(v, "Greenland Standard Time") {
        Some("America/Godthab")
    } else if text::same(v, "Montevideo Standard Time") {
        Some("America/Montevideo")
    } else if text::same(v, "Magallanes Standard Time") {
        Some("America/Punta_Arenas")
    } else if text::same(v, "Saint Pierre Standard Time") {
        Some("America/Miquelon")
    } else if text::same(v, "Bahia Standard Time") {
        Some("America/Bahia")
    } else if text::same(v, "UTC-02") {
        Some("Etc/GMT+2")
    } else if text::same(v, "Azores Standard Time") {
        Some("Atlantic/Azores")
    } else if text::same(v, "Cape Verde Standard Time") {
        Some("Atlantic/Cape_Verde")
    } else if text::same(v, "UTC") {
        Some("Etc/UTC")
    } else {
        None
    }
}

/// Windows zones from Europe to India.
pub open spec fn middle(v: Seq<char>) -> Option<Seq<char>> {
    if v == "GMT Standard Time"@ {
        Some("Europe/London"@)
    } else if v == "Greenwich Standard Time"@ {
        Some("Atlantic/Reykjavik"@)
    } else if v == "Sao Tome Standard Time"@ {
        Some("Africa/Sao_Tome"@)
    } else if v == "Morocco Standard Time"@ {
        Some("Africa/Casablanca"@)
    } else if v == "W. Europe Standard Time"@ {
        Some("Europe/Berlin"@)
    } else if v == "Central Europe Standard Time"@ {
        Some("Europe/Budapest"@)
    } else if v == "Romance Standard Time"@ {
        Some("Europe/Paris"@)
    } else if v == "Central European Standard Time"@ {
        Some("Europe/Warsaw"@)
    } else if v == "W. Central Africa Standard Time"@ {
        Some("Africa/Lagos"@)
    } else if v == "Jordan Standard Time"@ {
        Some("Asia/Amman"@)
    } else if v == "GTB Standard Time"@ {
        Some("Europe/Bucharest"@)
    } else if v == "Middle East Standard Time"@ {
        Some("Asia/Beirut"@)
    } else if v == "Egypt Standard Time"@ {
        Some("Africa/Cairo"@)
    } else if v == "E. Europe Standard Time"@ {
        Some("Europe/Chisinau"@)
    } else if v == "Syria Standard Time"@ {
        Some("Asia/Damascus"@)
    } else if v == "West Bank Standard Time"@ {
        Some("Asia/Hebron"@)
    } else if v == "South Africa Standard Time"@ {
        Some("Africa/Johannesburg"@)
    } else if v == "FLE Standard Time"@ {
        Some("Europe/Kiev"@)
    } else if v == "Israel Standard Time"@ {
        Some("Asia/Jerusalem"@)
    } else if v == "South Sudan Standard Time"@ {
        Some("Africa/Juba"@)
    } else if v == "Kaliningrad Standard Time"@ {
        Some("Europe/Kaliningrad"@)
    } else if v == "Sudan Standard Time"@ {
        Some("Africa/Khartoum"@)
    } else if v == "Libya Standard Time"@ {
        Some("Africa/Tripoli"@)
    } else if v == "Namibia Standard Time"@ {
        Some("Africa/Windhoek"@)
    } else if v == "Arabic Standard Time"@ {
        Some("Asia/Baghdad"@)
    } else if v == "Turkey Standard Time"@ {
        Some("Europe/Istanbul"@)
    } else if v == "Arab Standard Time"@ {
        Some("Asia/Riyadh"@)
    } else if v == "Belarus Standard Time"@ {
        Some("Europe/Minsk"@)
    } else if v == "Russian Standard Time"@ {
        Some("Europe/Moscow"@)
    } else if v == "E. Africa Standard Time"@ {
        Some("Africa/Nairobi"@)
    } else if v == "Iran Standard Time"@ {
        Some("Asia/Tehran"@)
    } else if v == "Arabian Standard Time"@ {
        Some("Asia/Dubai"@)
    } else if v == "Astrakhan Standard Time"@ {
        Some("Europe/Astrakhan"@)
    } else if v == "Azerbaijan Standard Time"@ {
        Some("Asia/Baku"@)
    } else if v == "Russia Time Zone 3"@ {
        Some("Europe/Samara"@)
    } else if v == "Mauritius Standard Time"@ {
        Some("Indian/Mauritius"@)
    } else if v == "Saratov Standard Time"@ {
        Some("Europe/Saratov"@)
    } else if v == "Georgian Standard Time"@ {
        Some("Asia/Tbilisi"@)
    } else if v == "Volgograd Standard Time"@ {
        Some("Europe/Volgograd"@)
    } else if v == "Caucasus Standard Time"@ {
        Some("Asia/Yerevan"@)
    } else if v == "Afghanistan Standard Time"@ {
        Some("Asia/Kabul"@)
    } else if v == "West Asia Standard Time"@ {
        Some("Asia/Tashkent"@)
    } else if v == "Ekaterinburg Standard Time"@ {
        Some("Asia/Yekaterinburg"@)
    } else if v == "Pakistan Standard Time"@ {
        Some("Asia/Karachi"@)
    } else if v == "Qyzylorda Standard Time"@ {
        Some("Asia/Qyzylorda"@)
    } else if v == "India Standard Time"@ {
        Some("Asia/Calcutta"@)
    } else {
        None
    }
}

fn find_middle(v: &str) -> (r: Option<&'static str>)
    ensures
        match r {
            Some(z) => middle(v@) == Some(z@),
            None => middle(v@) is None,
        },
{
    if text::same(v, "GMT Standard Time") {
        Some("Europe/London")
    } else if text::same(v, "Greenwich Standard Time") {
        Some("Atlantic/Reykjavik")
    } else if text::same(v, "Sao Tome Standard Time") {
        Some("Africa/Sao_Tome")
    } else if text::same(v, "Morocco Standard Time") {
        Some("Africa/Casablanca")
    } else if text::same(v, "W. Europe Standard Time") {
        Some("Europe/Berlin")
    } else if text::same(v, "Central Europe Standard Time") {
        Some("Europe/Budapest")
    } else if text::same(v, "Romance Standard Time") {
        Some("Europe/Paris")
    } else if text::same(v, "Central European Standard Time") {
        Some("Europe/Warsaw")
    } else if text::same(v, "W. Central Africa Standard Time") {
        Some("Africa/Lagos")
    } else if text::same(v, "Jordan Standard Time") {
        Some("Asia/Amman")
    } else if text::same(v, "GTB Standard Time") {
        Some("Europe/Bucharest")
    } else if text::same(v, "Middle East Standard Time") {
        Some("Asia/Beirut")
    } else if text::same(v, "Egypt Standard Time") {
        Some("Africa/Cairo")
    } else if text::same(v, "E. Europe Standard Time") {
        Some("Europe/Chisinau")
    } else if text::same(v, "Syria Standard Time") {
        Some("Asia/Damascus")
    } else if text::same(v, "West Bank Standard Time") {
        Some("Asia/Hebron")
    } else if text::same(v, "South Africa Standard Time") {
        Some("Africa/Johannesburg")
    } else if text::same(v, "FLE Standard Time") {
        Some("Europe/Kiev")
    } else if text::same(v, "Israel Standard Time") {
        Some("Asia/Jerusalem")
    } else if text::same(v, "South Sudan Standard Time") {
        Some("Africa/Juba")
    } else if text::same(v, "Kaliningrad Standard Time") {
        Some("Europe/Kaliningrad")
    } else if text::same(v, "Sudan Standard Time") {
        Some("Africa/Khartoum")
    } else if text::same(v, "Libya Standard Time") {
        Some("Africa/Tripoli")
    } else if text::same(v, "Namibia Standard Time") {
        Some("Africa/Windhoek")
    } else if text::same(v, "Arabic Standard Time") {
        Some("Asia/Baghdad")
    } else if text::same(v, "Turkey Standard Time") {
        Some("Europe/Istanbul")
    } else if text::same(v, "Arab Standard Time") {
        Some("Asia/Riyadh")
    } else if text::same(v, "Belarus Standard Time") {
        Some("Europe/Minsk")
    } else if text::same(v, "Russian Standard Time") {
        Some("Europe/Moscow")
    } else if text::same(v, "E. Africa Standard Time") {
        Some("Africa/Nairobi")
    } else if text::same(v, "Iran Standard Time") {
        Some("Asia/Tehran")
    } else if text::same(v, "Arabian Standard Time") {
        Some("Asia/Dubai")
    } else if text::same(v, "Astrakhan Standard Time") {
        Some("Europe/Astrakhan")
    } else if text::same(v, "Azerbaijan Standard Time") {
        Some("Asia/Baku")
    } else if text::same(v, "Russia Time Zone 3") {
        Some("Europe/Samara")
    } else if text::same(v, "Mauritius Standard Time") {
        Some("Indian/Mauritius")
    } else if text::same(v, "Saratov Standard Time") {
        Some("Europe/Saratov")
    } else if text::same(v, "Georgian Standard Time") {
        Some("Asia/Tbilisi")
    } else if text::same(v, "Volgograd Standard Time") {
        Some("Europe/Volgograd")
    } else if text::same(v, "Caucasus Standard Time") {
        Some("Asia/Yerevan")
    } else if text::same(v, "Afghanistan Standard Time") {
        Some("Asia/Kabul")
    } else if text::same(v, "West Asia Standard Time") {
        Some("Asia/Tashkent")
    } else if text::same(v, "Ekaterinburg Standard Time") {
        Some("Asia/Yekaterinburg")
    } else if text::same(v, "Pakistan Standard Time") {
        Some("Asia/Karachi")
    } else if text::same(v, "Qyzylorda Standard Time") {
        Some("Asia/Qyzylorda")
    } else if text::same(v, "India Standard Time") {
        Some("Asia/Calcutta")
    } else {
        None
    }
}

/// Windows zones east of India.
pub open spec fn east(v: Seq<char>) -> Option<Seq<char>> {
    if v == "Sri Lanka Standard Time"@ {
        Some("Asia/Colombo"@)
    } else if v == "Nepal Standard Time"@ {
        Some("Asia/Katmandu"@)
    } else if v == "Central Asia Standard Time"@ {
        Some("Asia/Almaty"@)
    } else if v == "Bangladesh Standard Time"@ {
        Some("Asia/Dhaka"@)
    } else if v == "Omsk Standard Time"@ {
        Some("Asia/Omsk"@)
    } else if v == "Myanmar Standard Time"@ {
        Some("Asia/Rangoon"@)
    } else if v == "SE Asia Standard Time"@ {
        Some("Asia/Bangkok"@)
    } else if v == "Altai Standard Time"@ {
        Some("Asia/Barnaul"@)
    } else if v == "W. Mongolia Standard Time"@ {
        Some("Asia/Hovd"@)
    } else if v == "North Asia Standard Time"@ {
        Some("Asia/Krasnoyarsk"@)
    } else if v == "N. Central Asia Standard Time"@ {
        Some("Asia/Novosibirsk"@)
    } else if v == "Tomsk Standard Time"@ {
        Some("Asia/Tomsk"@)
    } else if v == "China Standard Time"@ {
        Some("Asia/Shanghai"@)
    } else if v == "North Asia East Standard Time"@ {
        Some("Asia/Irkutsk"@)
    } else if v == "Singapore Standard Time"@ {
        Some("Asia/Singapore"@)
    } else if v == "W. Australia Standard Time"@ {
        Some("Australia/Perth"@)
    } else if v == "Taipei Standard Time"@ {
        Some("Asia/Taipei"@)
    } else if v == "Ulaanbaatar Standard Time"@ {
        Some("Asia/Ulaanbaatar"@)
    } else if v == "Aus Central W. Standard Time"@ {
        Some("Australia/Eucla"@)
    } else if v == "Transbaikal Standard Time"@ {
        Some("Asia/Chita"@)
    } else if v == "Tokyo Standard Time"@ {
        Some("Asia/Tokyo"@)
    } else if v == "North Korea Standard Time"@ {
        Some("Asia/Pyongyang"@)
    } else if v == "Korea Standard Time"@ {
        Some("Asia/Seoul"@)
    } else if v == "Yakutsk Standard Time"@ {
        Some("Asia/Yakutsk"@)
    } else if v == "Cen. Australia Standard Time"@ {
        Some("Australia/Adelaide"@)
    } else if v == "AUS Central Standard Time"@ {
        Some("Australia/Darwin"@)
    } else if v == "E. Australia Standard Time"@ {
        Some("Australia/Brisbane"@)
    } else if v == "AUS Eastern Standard Time"@ {
        Some("Australia/Sydney"@)
    } else if v == "West Pacific Standard Time"@ {
        Some("Pacific/Port_Moresby"@)
    } else if v == "Tasmania Standard Time"@ {
        Some("Australia/Hobart"@)
    } else if v == "Vladivostok Standard Time"@ {
        Some("Asia/Vladivostok"@)
    } else if v == "Lord Howe Standard Time"@ {
        Some("Australia/Lord_Howe"@)
    } else if v == "Bougainville Standard Time"@ {
        Some("Pacific/Bougainville"@)
    } else if v == "Russia Time Zone 10"@ {
        Some("Asia/Srednekolymsk"@)
    } else if v == "Magadan Standard Time"@ {
        Some("Asia/Magadan"@)
    } else if v == "Norfolk Standard Time"@ {
        Some("Pacific/Norfolk"@)
    } else if v == "Sakhalin Standard Time"@ {
        Some("Asia/Sakhalin"@)
    } else if v == "Central Pacific Standard Time"@ {
        Some("Pacific/Guadalcanal"@)
    } else if v == "Russia Time Zone 11"@ {
        Some("Asia/Kamchatka"@)
    } else if v == "New Zealand Standard Time"@ {
        Some("Pacific/Auckland"@)
    } else if v == "UTC+12"@ {
        Some("Etc/GMT-12"@)
    } else if v == "Fiji Standard Time"@ {
        Some("Pacific/Fiji"@)
    } else if v == "Chatham Islands Standard Time"@ {
        Some("Pacific/Chatham"@)
    } else if v == "UTC+13"@ {
        Some("Etc/GMT-13"@)
    } else if v == "Tonga Standard Time"@ {
        Some("Pacific/Tongatapu"@)
    } else if v == "Samoa Standard Time"@ {
        Some("Pacific/Apia"@)
    } else if v == "Line Islands Standard Time"@ {
        Some("Pacific/Kiritimati"@)
    } else {
        None
    }
}

fn find_east(v: &str) -> (r: Option<&'static str>)
    ensures
        match r {
            Some(z) => east(v@) == Some(z@),
            None => east(v@) is None,
        },
{
    if text::same(v, "Sri Lanka Standard Time") {
        Some("Asia/Colombo")
    } else if text::same(v, "Nepal Standard Time") {
        Some("Asia/Katmandu")
    } else if text::same(v, "Central Asia Standard Time") {
        Some("Asia/Almaty")
    } else if text::same(v, "Bangladesh Standard Time") {
        Some("Asia/Dhaka")
    } else if text::same(v, "Omsk Standard Time") {
        Some("Asia/Omsk")
    } else if text::same(v, "Myanmar Standard Time") {
        Some("Asia/Rangoon")
    } else if text::same(v, "SE Asia Standard Time") {
        Some("Asia/Bangkok")
    } else if text::same(v, "Altai Standard Time") {
        Some("Asia/Barnaul")
    } else if text::same(v, "W. Mongolia Standard Time") {
        Some("Asia/Hovd")
    } else if text::same(v, "North Asia Standard Time") {
        Some("Asia/Krasnoyarsk")
    } else if text::same(v, "N. Central Asia Standard Time") {
        Some("Asia/Novosibirsk")
    } else if text::same(v, "Tomsk Standard Time") {
        Some("Asia/Tomsk")
    } else if text::same(v, "China Standard Time") {
        Some("Asia/Shanghai")
    } else if text::same(v, "North Asia East Standard Time") {
        Some("Asia/Irkutsk")
    } else if text::same(v, "Singapore Standard Time") {
        Some("Asia/Singapore")
    } else if text::same(v, "W. Australia Standard Time") {
        Some("Australia/Perth")
    } else if text::same(v, "Taipei Standard Time") {
        Some("Asia/Taipei")
    } else if text::same(v, "Ulaanbaatar Standard Time") {
        Some("Asia/Ulaanbaatar")
    } else if text::same(v, "Aus Central W. Standard Time") {
        Some("Australia/Eucla")
    } else if text::same(v, "Transbaikal Standard Time") {
        Some("Asia/Chita")
    } else if text::same(v, "Tokyo Standard Time") {
        Some("Asia/Tokyo")
    } else if text::same(v, "North Korea Standard Time") {
        Some("Asia/Pyongyang")
    } else if text::same(v, "Korea Standard Time") {
        Some("Asia/Seoul")
    } else if text::same(v, "Yakutsk Standard Time") {
        Some("Asia/Yakutsk")
    } else if text::same(v, "Cen. Australia Standard Time") {
        Some("Australia/Adelaide")
    } else if text::same(v, "AUS Central Standard Time") {
        Some("Australia/Darwin")
    } else if text::same(v, "E. Australia Standard Time") {
        Some("Australia/Brisbane")
    } else if text::same(v, "AUS Eastern Standard Time") {
        Some("Australia/Sydney")
    } else if text::same(v, "West Pacific Standard Time") {
        Some("Pacific/Port_Moresby")
    } else if text::same(v, "Tasmania Standard Time") {
        Some("Australia/Hobart")
    } else if text::same(v, "Vladivostok Standard Time") {
        Some("Asia/Vladivostok")
    } else if text::same(v, "Lord Howe Standard Time") {
        Some("Australia/Lord_Howe")
    } else if text::same(v, "Bougainville Standard Time") {
        Some("Pacific/Bougainville")
    } else if text::same(v, "Russia Time Zone 10") {
        Some("Asia/Srednekolymsk")
    } else if text::same(v, "Magadan Standard Time") {
        Some("Asia/Magadan")
    } else if text::same(v, "Norfolk Standard Time") {
        Some("Pacific/Norfolk")
    } else if text::same(v, "Sakhalin Standard Time") {
        Some("Asia/Sakhalin")
    } else if text::same(v, "Central Pacific Standard Time") {
        Some("Pacific/Guadalcanal")
    } else if text::same(v, "Russia Time Zone 11") {
        Some("Asia/Kamchatka")
    } else if text::same(v, "New Zealand Standard Time") {
        Some("Pacific/Auckland")
    } else if text::same(v, "UTC+12") {
        Some("Etc/GMT-12")
    } else if text::same(v, "Fiji Standard Time") {
        Some("Pacific/Fiji")
    } else if text::same(v, "Chatham Islands Standard Time") {
        Some("Pacific/Chatham")
    } else if text::same(v, "UTC+13") {
        Some("Etc/GMT-13")
    } else if text::same(v, "Tonga Standard Time") {
        Some("Pacific/Tongatapu")
    } else if text::same(v, "Samoa Standard Time") {
        Some("Pacific/Apia")
    } else if text::same(v, "Line Islands Standard Time") {
        Some("Pacific/Kiritimati")
    } else {
        None
    }
}

/// The IANA zone that a Windows zone name stands for.
pub open spec fn windows_zone(v: Seq<char>) -> Option<Seq<char>> {
    match west(v) {
        Some(z) => Some(z),
        None => match middle(v) {
            Some(z) => Some(z),
            None => east(v),
        },
    }
}

/// The IANA zone that a name stands for: what a Windows name maps to, else the
/// name itself where it is `known` as an IANA name.
pub open spec fn zone_named(v: Seq<char>, known: bool) -> Option<Seq<char>> {
    match windows_zone(v) {
        Some(z) => Some(z),
        None => if known {
            Some(v)
        } else {
            None
        },
    }
}

/// See [`zone_named`].
pub fn zone_for_name(value: &str, known: bool) -> (r: Option<String>)
    ensures
        text::opt_text(r) == zone_named(value@, known),
{
    match find_west(value) {
        Some(z) => Some(z.to_owned()),
        None => match find_middle(value) {
            Some(z) => Some(z.to_owned()),
            None => match find_east(value) {
                Some(z) => Some(z.to_owned()),
                None => if known {
                    Some(value.to_owned())
                } else {
                    None
                },
            },
        },
    }
}

/// The IANA zone that a name stands for; see [`zone_named`].
pub open spec fn iana_name(v: Seq<char>) -> Option<Seq<char>> {
    zone_named(v, moment::is_zone(v))
}

/// See [`iana_name`].
pub fn resolve_to_iana(value: &str) -> (r: Option<String>)
    ensures
        match r {
            Some(z) => iana_name(value@) == Some(z@),
            None => iana_name(value@) is None,
        },
{
    zone_for_name(value, moment::zone_known(value))
}

} // verus!
