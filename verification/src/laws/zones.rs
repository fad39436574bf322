//! The time zones that names stand for.

use vstd::prelude::*;
use vstd::string::*;

use crate::exchange::moment;
use crate::exchange::tz::{east, iana_name, middle, west, windows_zone, zone_named};

verus! {

/// A name of a Windows zone stands for the zone that it maps to; any other name stands
/// for itself where there is a zone of that name, and else for none.
pub proof fn names_stand_for_zones(v: Seq<char>, known: bool)
    ensures
        west(v) is Some ==> windows_zone(v) == west(v),
        west(v) is None && middle(v) is Some ==> windows_zone(v) == middle(v),
        west(v) is None && middle(v) is None ==> windows_zone(v) == east(v),
        windows_zone(v) is Some ==> iana_name(v) == windows_zone(v) && zone_named(v, known) == windows_zone(v),
        windows_zone(v) is None && moment::is_zone(v) ==> iana_name(v) == Some(v),
        windows_zone(v) is None && !moment::is_zone(v) ==> iana_name(v) is None,
        windows_zone(v) is None ==> (zone_named(v, known) is Some <==> known) && (known ==> zone_named(v, known)
            == Some(v)),
{
}

/// The names that Windows has for zones west of and at Greenwich stand for these.
#[verifier::rlimit(100)]
pub proof fn western_zones_are_known(v: Seq<char>)
    ensures
        v == "Dateline Standard Time"@ ==> west(v) == Some("Etc/GMT+12"@),
        v == "UTC-11"@ ==> west(v) == Some("Etc/GMT+11"@),
        v == "Aleutian Standard Time"@ ==> west(v) == Some("America/Adak"@),
        v == "Hawaiian Standard Time"@ ==> west(v) == Some("Pacific/Honolulu"@),
        v == "Marquesas Standard Time"@ ==> west(v) == Some("Pacific/Marquesas"@),
        v == "Alaskan Standard Time"@ ==> west(v) == Some("America/Anchorage"@),
        v == "UTC-09"@ ==> west(v) == Some("Etc/GMT+9"@),
        v == "Pacific Standard Time (Mexico)"@ ==> west(v) == Some("America/Tijuana"@),
        v == "UTC-08"@ ==> west(v) == Some("Etc/GMT+8"@),
        v == "Pacific Standard Time"@ ==> west(v) == Some("America/Los_Angeles"@),
        v == "US Mountain Standard Time"@ ==> west(v) == Some("America/Phoenix"@),
        v == "Mountain Standard Time (Mexico)"@ ==> west(v) == Some("America/Mazatlan"@),
        v == "Mountain Standard Time"@ ==> west(v) == Some("America/Denver"@),
        v == "Yukon Standard Time"@ ==> west(v) == Some("America/Whitehorse"@),
        v == "Central America Standard Time"@ ==> west(v) == Some("America/Guatemala"@),
        v == "Central Standard Time"@ ==> west(v) == Some("America/Chicago"@),
        v == "Easter Island Standard Time"@ ==> west(v) == Some("Pacific/Easter"@),
        v == "Central Standard Time (Mexico)"@ ==> west(v) == Some("America/Mexico_City"@),
        v == "Canada Central Standard Time"@ ==> west(v) == Some("America/Regina"@),
        v == "SA Pacific Standard Time"@ ==> west(v) == Some("America/Bogota"@),
        v == "Eastern Standard Time (Mexico)"@ ==> west(v) == Some("America/Cancun"@),
        v == "Eastern Standard Time"@ ==> west(v) == Some("America/New_York"@),
        v == "Haiti Standard Time"@ ==> west(v) == Some("America/Port-au-Prince"@),
        v == "Cuba Standard Time"@ ==> west(v) == Some("America/Havana"@),
        v == "US Eastern Standard Time"@ ==> west(v) == Some("America/Indianapolis"@),
        v == "Turks And Caicos Standard Time"@ ==> west(v) == Some("America/Grand_Turk"@),
        v == "Paraguay Standard Time"@ ==> west(v) == Some("America/Asuncion"@),
        v == "Atlantic Standard Time"@ ==> west(v) == Some("America/Halifax"@),
        v == "Venezuela Standard Time"@ ==> west(v) == Some("America/Caracas"@),
        v == "Central Brazilian Standard Time"@ ==> west(v) == Some("America/Cuiaba"@),
        v == "SA Western Standard Time"@ ==> west(v) == Some("America/La_Paz"@),
        v == "Pacific SA Standard Time"@ ==> west(v) == Some("America/Santiago"@),
        v == "Newfoundland Standard Time"@ ==> west(v) == Some("America/St_Johns"@),
        v == "Tocantins Standard Time"@ ==> west(v) == Some("America/Araguaina"@),
        v == "E. South America Standard Time"@ ==> west(v) == Some("America/Sao_Paulo"@),
        v == "SA Eastern Standard Time"@ ==> west(v) == Some("America/Cayenne"@),
        v == "Argentina Standard Time"@ ==> west(v) == Some("America/Buenos_Aires"@),
        v == "Greenland Standard Time"@ ==> west(v) == Some("America/Godthab"@),
        v == "Montevideo Standard Time"@ ==> west(v) == Some("America/Montevideo"@),
        v == "Magallanes Standard Time"@ ==> west(v) == Some("America/Punta_Arenas"@),
        v == "Saint Pierre Standard Time"@ ==> west(v) == Some("America/Miquelon"@),
        v == "Bahia Standard Time"@ ==> west(v) == Some("America/Bahia"@),
        v == "UTC-02"@ ==> west(v) == Some("Etc/GMT+2"@),
        v == "Azores Standard Time"@ ==> west(v) == Some("Atlantic/Azores"@),
        v == "Cape Verde Standard Time"@ ==> west(v) == Some("Atlantic/Cape_Verde"@),
        v == "UTC"@ ==> west(v) == Some("Etc/UTC"@),
{
    reveal_strlit("Dateline Standard Time");
    reveal_strlit("UTC-11");
    reveal_strlit("Aleutian Standard Time");
    reveal_strlit("Hawaiian Standard Time");
    reveal_strlit("Marquesas Standard Time");
    reveal_strlit("Alaskan Standard Time");
    reveal_strlit("UTC-09");
    reveal_strlit("Pacific Standard Time (Mexico)");
    reveal_strlit("UTC-08");
    reveal_strlit("Pacific Standard Time");
    reveal_strlit("US Mountain Standard Time");
    reveal_strlit("Mountain Standard Time (Mexico)");
    reveal_strlit("Mountain Standard Time");
    reveal_strlit("Yukon Standard Time");
    reveal_strlit("Central America Standard Time");
    reveal_strlit("Central Standard Time");
    reveal_strlit("Easter Island Standard Time");
    reveal_strlit("Central Standard Time (Mexico)");
    reveal_strlit("Canada Central Standard Time");
    reveal_strlit("SA Pacific Standard Time");
    reveal_strlit("Eastern Standard Time (Mexico)");
    reveal_strlit("Eastern Standard Time");
    reveal_strlit("Haiti Standard Time");
    reveal_strlit("Cuba Standard Time");
    reveal_strlit("US Eastern Standard Time");
    reveal_strlit("Turks And Caicos Standard Time");
    reveal_strlit("Paraguay Standard Time");
    reveal_strlit("Atlantic Standard Time");
    reveal_strlit("Venezuela Standard Time");
    reveal_strlit("Central Brazilian Standard Time");
    reveal_strlit("SA Western Standard Time");
    reveal_strlit("Pacific SA Standard Time");
    reveal_strlit("Newfoundland Standard Time");
    reveal_strlit("Tocantins Standard Time");
    reveal_strlit("E. South America Standard Time");
    reveal_strlit("SA Eastern Standard Time");
    reveal_strlit("Argentina Standard Time");
    reveal_strlit("Greenland Standard Time");
    reveal_strlit("Montevideo Standard Time");
    reveal_strlit("Magallanes Standard Time");
    reveal_strlit("Saint Pierre Standard Time");
    reveal_strlit("Bahia Standard Time");
    reveal_strlit("UTC-02");
    reveal_strlit("Azores Standard Time");
    reveal_strlit("Cape Verde Standard Time");
    reveal_strlit("UTC");
    assert("UTC"@.len() == 3);
    assert("UTC-11"@.len() == 6);
    assert("UTC-09"@.len() == 6);
    assert("UTC-08"@.len() == 6);
    assert("UTC-02"@.len() == 6);
    assert("UTC-11"@[5] == '1');
    assert("UTC-09"@[5] == '9');
    assert("UTC-08"@[5] == '8');
    assert("UTC-02"@[5] == '2');
    assert("Cuba Standard Time"@.len() == 18);
    assert("Yukon Standard Time"@.len() == 19);
    assert("Haiti Standard Time"@.len() == 19);
    assert("Bahia Standard Time"@.len() == 19);
    assert("Yukon Standard Time"@[0] == 'Y');
    assert("Haiti Standard Time"@[0] == 'H');
    assert("Bahia Standard Time"@[0] == 'B');
    assert("Azores Standard Time"@.len() == 20);
    assert("Alaskan Standard Time"@.len() == 21);
    assert("Pacific Standard Time"@.len() == 21);
    assert("Central Standard Time"@.len() == 21);
    assert("Eastern Standard Time"@.len() == 21);
    assert("Alaskan Standard Time"@[0] == 'A');
    assert("Pacific Standard Time"@[0] == 'P');
    assert("Central Standard Time"@[0] == 'C');
    assert("Eastern Standard Time"@[0] == 'E');
    assert("Dateline Standard Time"@.len() == 22);
    assert("Aleutian Standard Time"@.len() == 22);
    assert("Hawaiian Standard Time"@.len() == 22);
    assert("Mountain Standard Time"@.len() == 22);
    assert("Paraguay Standard Time"@.len() == 22);
    assert("Atlantic Standard Time"@.len() == 22);
    assert("Dateline Standard Time"@[2] == 't');
    assert("Aleutian Standard Time"@[2] == 'e');
    assert("Hawaiian Standard Time"@[2] == 'w');
    assert("Mountain Standard Time"@[2] == 'u');
    assert("Paraguay Standard Time"@[2] == 'r');
    assert("Atlantic Standard Time"@[2] == 'l');
    assert("Marquesas Standard Time"@.len() == 23);
    assert("Venezuela Standard Time"@.len() == 23);
    assert("Tocantins Standard Time"@.len() == 23);
    assert("Argentina Standard Time"@.len() == 23);
    assert("Greenland Standard Time"@.len() == 23);
    assert("Marquesas Standard Time"@[0] == 'M');
    assert("Venezuela Standard Time"@[0] == 'V');
    assert("Tocantins Standard Time"@[0] == 'T');
    assert("Argentina Standard Time"@[0] == 'A');
    assert("Greenland Standard Time"@[0] == 'G');
    assert("SA Pacific Standard Time"@.len() == 24);
    assert("US Eastern Standard Time"@.len() == 24);
    assert("SA Western Standard Time"@.len() == 24);
    assert("Pacific SA Standard Time"@.len() == 24);
    assert("SA Eastern Standard Time"@.len() == 24);
    assert("Montevideo Standard Time"@.len() == 24);
    assert("Magallanes Standard Time"@.len() == 24);
    assert("Cape Verde Standard Time"@.len() == 24);
    assert("SA Pacific Standard Time"@[3] == 'P');
    assert("SA Pacific Standard Time"@[0] == 'S');
    assert("US Eastern Standard Time"@[3] == 'E');
    assert("US Eastern Standard Time"@[0] == 'U');
    assert("SA Western Standard Time"@[3] == 'W');
    assert("SA Western Standard Time"@[0] == 'S');
    assert("Pacific SA Standard Time"@[3] == 'i');
    assert("Pacific SA Standard Time"@[0] == 'P');
    assert("SA Eastern Standard Time"@[3] == 'E');
    assert("SA Eastern Standard Time"@[0] == 'S');
    assert("Montevideo Standard Time"@[3] == 't');
    assert("Montevideo Standard Time"@[0] == 'M');
    assert("Magallanes Standard Time"@[3] == 'a');
    assert("Magallanes Standard Time"@[0] == 'M');
    assert("Cape Verde Standard Time"@[3] == 'e');
    assert("Cape Verde Standard Time"@[0] == 'C');
    assert("US Mountain Standard Time"@.len() == 25);
    assert("Newfoundland Standard Time"@.len() == 26);
    assert("Saint Pierre Standard Time"@.len() == 26);
    assert("Newfoundland Standard Time"@[0] == 'N');
    assert("Saint Pierre Standard Time"@[0] == 'S');
    assert("Easter Island Standard Time"@.len() == 27);
    assert("Canada Central Standard Time"@.len() == 28);
    assert("Central America Standard Time"@.len() == 29);
    assert("Pacific Standard Time (Mexico)"@.len() == 30);
    assert("Central Standard Time (Mexico)"@.len() == 30);
    assert("Eastern Standard Time (Mexico)"@.len() == 30);
    assert("Turks And Caicos Standard Time"@.len() == 30);
    assert("E. South America Standard Time"@.len() == 30);
    assert("Pacific Standard Time (Mexico)"@[2] == 'c');
    assert("Central Standard Time (Mexico)"@[2] == 'n');
    assert("Eastern Standard Time (Mexico)"@[2] == 's');
    assert("Turks And Caicos Standard Time"@[2] == 'r');
    assert("E. South America Standard Time"@[2] == ' ');
    assert("Mountain Standard Time (Mexico)"@.len() == 31);
    assert("Central Brazilian Standard Time"@.len() == 31);
    assert("Mountain Standard Time (Mexico)"@[0] == 'M');
    assert("Central Brazilian Standard Time"@[0] == 'C');
}

/// The names that Windows has for zones from Europe to India stand for these.
#[verifier::rlimit(100)]
pub proof fn zones_between_are_known(v: Seq<char>)
    ensures
        v == "GMT Standard Time"@ ==> middle(v) == Some("Europe/London"@),
        v == "Greenwich Standard Time"@ ==> middle(v) == Some("Atlantic/Reykjavik"@),
        v == "Sao Tome Standard Time"@ ==> middle(v) == Some("Africa/Sao_Tome"@),
        v == "Morocco Standard Time"@ ==> middle(v) == Some("Africa/Casablanca"@),
        v == "W. Europe Standard Time"@ ==> middle(v) == Some("Europe/Berlin"@),
        v == "Central Europe Standard Time"@ ==> middle(v) == Some("Europe/Budapest"@),
        v == "Romance Standard Time"@ ==> middle(v) == Some("Europe/Paris"@),
        v == "Central European Standard Time"@ ==> middle(v) == Some("Europe/Warsaw"@),
        v == "W. Central Africa Standard Time"@ ==> middle(v) == Some("Africa/Lagos"@),
        v == "Jordan Standard Time"@ ==> middle(v) == Some("Asia/Amman"@),
        v == "GTB Standard Time"@ ==> middle(v) == Some("Europe/Bucharest"@),
        v == "Middle East Standard Time"@ ==> middle(v) == Some("Asia/Beirut"@),
        v == "Egypt Standard Time"@ ==> middle(v) == Some("Africa/Cairo"@),
        v == "E. Europe Standard Time"@ ==> middle(v) == Some("Europe/Chisinau"@),
        v == "Syria Standard Time"@ ==> middle(v) == Some("Asia/Damascus"@),
        v == "West Bank Standard Time"@ ==> middle(v) == Some("Asia/Hebron"@),
        v == "South Africa Standard Time"@ ==> middle(v) == Some("Africa/Johannesburg"@),
        v == "FLE Standard Time"@ ==> middle(v) == Some("Europe/Kiev"@),
        v == "Israel Standard Time"@ ==> middle(v) == Some("Asia/Jerusalem"@),
        v == "South Sudan Standard Time"@ ==> middle(v) == Some("Africa/Juba"@),
        v == "Kaliningrad Standard Time"@ ==> middle(v) == Some("Europe/Kaliningrad"@),
        v == "Sudan Standard Time"@ ==> middle(v) == Some("Africa/Khartoum"@),
        v == "Libya Standard Time"@ ==> middle(v) == Some("Africa/Tripoli"@),
        v == "Namibia Standard Time"@ ==> middle(v) == Some("Africa/Windhoek"@),
        v == "Arabic Standard Time"@ ==> middle(v) == Some("Asia/Baghdad"@),
        v == "Turkey Standard Time"@ ==> middle(v) == Some("Europe/Istanbul"@),
        v == "Arab Standard Time"@ ==> middle(v) == Some("Asia/Riyadh"@),
        v == "Belarus Standard Time"@ ==> middle(v) == Some("Europe/Minsk"@),
        v == "Russian Standard Time"@ ==> middle(v) == Some("Europe/Moscow"@),
        v == "E. Africa Standard Time"@ ==> middle(v) == Some("Africa/Nairobi"@),
        v == "Iran Standard Time"@ ==> middle(v) == Some("Asia/Tehran"@),
        v == "Arabian Standard Time"@ ==> middle(v) == Some("Asia/Dubai"@),
        v == "Astrakhan Standard Time"@ ==> middle(v) == Some("Europe/Astrakhan"@),
        v == "Azerbaijan Standard Time"@ ==> middle(v) == Some("Asia/Baku"@),
        v == "Russia Time Zone 3"@ ==> middle(v) == Some("Europe/Samara"@),
        v == "Mauritius Standard Time"@ ==> middle(v) == Some("Indian/Mauritius"@),
        v == "Saratov Standard Time"@ ==> middle(v) == Some("Europe/Saratov"@),
        v == "Georgian Standard Time"@ ==> middle(v) == Some("Asia/Tbilisi"@),
        v == "Volgograd Standard Time"@ ==> middle(v) == Some("Europe/Volgograd"@),
        v == "Caucasus Standard Time"@ ==> middle(v) == Some("Asia/Yerevan"@),
        v == "Afghanistan Standard Time"@ ==> middle(v) == Some("Asia/Kabul"@),
        v == "West Asia Standard Time"@ ==> middle(v) == Some("Asia/Tashkent"@),
        v == "Ekaterinburg Standard Time"@ ==> middle(v) == Some("Asia/Yekaterinburg"@),
        v == "Pakistan Standard Time"@ ==> middle(v) == Some("Asia/Karachi"@),
        v == "Qyzylorda Standard Time"@ ==> middle(v) == Some("Asia/Qyzylorda"@),
        v == "India Standard Time"@ ==> middle(v) == Some("Asia/Calcutta"@),
{
    reveal_strlit("GMT Standard Time");
    reveal_strlit("Greenwich Standard Time");
    reveal_strlit("Sao Tome Standard Time");
    reveal_strlit("Morocco Standard Time");
    reveal_strlit("W. Europe Standard Time");
    reveal_strlit("Central Europe Standard Time");
    reveal_strlit("Romance Standard Time");
    reveal_strlit("Central European Standard Time");
    reveal_strlit("W. Central Africa Standard Time");
    reveal_strlit("Jordan Standard Time");
    reveal_strlit("GTB Standard Time");
    reveal_strlit("Middle East Standard Time");
    reveal_strlit("Egypt Standard Time");
    reveal_strlit("E. Europe Standard Time");
    reveal_strlit("Syria Standard Time");
    reveal_strlit("West Bank Standard Time");
    reveal_strlit("South Africa Standard Time");
    reveal_strlit("FLE Standard Time");
    reveal_strlit("Israel Standard Time");
    reveal_strlit("South Sudan Standard Time");
    reveal_strlit("Kaliningrad Standard Time");
    reveal_strlit("Sudan Standard Time");
    reveal_strlit("Libya Standard Time");
    reveal_strlit("Namibia Standard Time");
    reveal_strlit("Arabic Standard Time");
    reveal_strlit("Turkey Standard Time");
    reveal_strlit("Arab Standard Time");
    reveal_strlit("Belarus Standard Time");
    reveal_strlit("Russian Standard Time");
    reveal_strlit("E. Africa Standard Time");
    reveal_strlit("Iran Standard Time");
    reveal_strlit("Arabian Standard Time");
    reveal_strlit("Astrakhan Standard Time");
    reveal_strlit("Azerbaijan Standard Time");
    reveal_strlit("Russia Time Zone 3");
    reveal_strlit("Mauritius Standard Time");
    reveal_strlit("Saratov Standard Time");
    reveal_strlit("Georgian Standard Time");
    reveal_strlit("Volgograd Standard Time");
    reveal_strlit("Caucasus Standard Time");
    reveal_strlit("Afghanistan Standard Time");
    reveal_strlit("West Asia Standard Time");
    reveal_strlit("Ekaterinburg Standard Time");
    reveal_strlit("Pakistan Standard Time");
    reveal_strlit("Qyzylorda Standard Time");
    reveal_strlit("India Standard Time");
    assert("GMT Standard Time"@.len() == 17);
    assert("GTB Standard Time"@.len() == 17);
    assert("FLE Standard Time"@.len() == 17);
    assert("GMT Standard Time"@[1] == 'M');
    assert("GTB Standard Time"@[1] == 'T');
    assert("FLE Standard Time"@[1] == 'L');
    assert("Arab Standard Time"@.len() == 18);
    assert("Iran Standard Time"@.len() == 18);
    assert("Russia Time Zone 3"@.len() == 18);
    assert("Arab Standard Time"@[0] == 'A');
    assert("Iran Standard Time"@[0] == 'I');
    assert("Russia Time Zone 3"@[0] == 'R');
    assert("Egypt Standard Time"@.len() == 19);
    assert("Syria Standard Time"@.len() == 19);
    assert("Sudan Standard Time"@.len() == 19);
    assert("Libya Standard Time"@.len() == 19);
    assert("India Standard Time"@.len() == 19);
    assert("Egypt Standard Time"@[1] == 'g');
    assert("Syria Standard Time"@[1] == 'y');
    assert("Sudan Standard Time"@[1] == 'u');
    assert("Libya Standard Time"@[1] == 'i');
    assert("India Standard Time"@[1] == 'n');
    assert("Jordan Standard Time"@.len() == 20);
    assert("Israel Standard Time"@.len() == 20);
    assert("Arabic Standard Time"@.len() == 20);
    assert("Turkey Standard Time"@.len() == 20);
    assert("Jordan Standard Time"@[0] == 'J');
    assert("Israel Standard Time"@[0] == 'I');
    assert("Arabic Standard Time"@[0] == 'A');
    assert("Turkey Standard Time"@[0] == 'T');
    assert("Morocco Standard Time"@.len() == 21);
    assert("Romance Standard Time"@.len() == 21);
    assert("Namibia Standard Time"@.len() == 21);
    assert("Belarus Standard Time"@.len() == 21);
    assert("Russian Standard Time"@.len() == 21);
    assert("Arabian Standard Time"@.len() == 21);
    assert("Saratov Standard Time"@.len() == 21);
    assert("Morocco Standard Time"@[0] == 'M');
    assert("Morocco Standard Time"@[1] == 'o');
    assert("Romance Standard Time"@[0] == 'R');
    assert("Romance Standard Time"@[1] == 'o');
    assert("Namibia Standard Time"@[0] == 'N');
    assert("Namibia Standard Time"@[1] == 'a');
    assert("Belarus Standard Time"@[0] == 'B');
    assert("Belarus Standard Time"@[1] == 'e');
    assert("Russian Standard Time"@[0] == 'R');
    assert("Russian Standard Time"@[1] == 'u');
    assert("Arabian Standard Time"@[0] == 'A');
    assert("Arabian Standard Time"@[1] == 'r');
    assert("Saratov Standard Time"@[0] == 'S');
    assert("Saratov Standard Time"@[1] == 'a');
    assert("Sao Tome Standard Time"@.len() == 22);
    assert("Georgian Standard Time"@.len() == 22);
    assert("Caucasus Standard Time"@.len() == 22);
    assert("Pakistan Standard Time"@.len() == 22);
    assert("Sao Tome Standard Time"@[0] == 'S');
    assert("Georgian Standard Time"@[0] == 'G');
    assert("Caucasus Standard Time"@[0] == 'C');
    assert("Pakistan Standard Time"@[0] == 'P');
    assert("Greenwich Standard Time"@.len() == 23);
    assert("W. Europe Standard Time"@.len() == 23);
    assert("E. Europe Standard Time"@.len() == 23);
    assert("West Bank Standard Time"@.len() == 23);
    assert("E. Africa Standard Time"@.len() == 23);
    assert("Astrakhan Standard Time"@.len() == 23);
    assert("Mauritius Standard Time"@.len() == 23);
    assert("Volgograd Standard Time"@.len() == 23);
    assert("West Asia Standard Time"@.len() == 23);
    assert("Qyzylorda Standard Time"@.len() == 23);
    assert("Greenwich Standard Time"@[4] == 'n');
    assert("Greenwich Standard Time"@[0] == 'G');
    assert("Greenwich Standard Time"@[5] == 'w');
    assert("W. Europe Standard Time"@[4] == 'u');
    assert("W. Europe Standard Time"@[0] == 'W');
    assert("W. Europe Standard Time"@[5] == 'r');
    assert("E. Europe Standard Time"@[4] == 'u');
    assert("E. Europe Standard Time"@[0] == 'E');
    assert("E. Europe Standard Time"@[5] == 'r');
    assert("West Bank Standard Time"@[4] == ' ');
    assert("West Bank Standard Time"@[0] == 'W');
    assert("West Bank Standard Time"@[5] == 'B');
    assert("E. Africa Standard Time"@[4] == 'f');
    assert("E. Africa Standard Time"@[0] == 'E');
    assert("E. Africa Standard Time"@[5] == 'r');
    assert("Astrakhan Standard Time"@[4] == 'a');
    assert("Astrakhan Standard Time"@[0] == 'A');
    assert("Astrakhan Standard Time"@[5] == 'k');
    assert("Mauritius Standard Time"@[4] == 'i');
    assert("Mauritius Standard Time"@[0] == 'M');
    assert("Mauritius Standard Time"@[5] == 't');
    assert("Volgograd Standard Time"@[4] == 'o');
    assert("Volgograd Standard Time"@[0] == 'V');
    assert("Volgograd Standard Time"@[5] == 'g');
    assert("West Asia Standard Time"@[4] == ' ');
    assert("West Asia Standard Time"@[0] == 'W');
    assert("West Asia Standard Time"@[5] == 'A');
    assert("Qyzylorda Standard Time"@[4] == 'l');
    assert("Qyzylorda Standard Time"@[0] == 'Q');
    assert("Qyzylorda Standard Time"@[5] == 'o');
    assert("Azerbaijan Standard Time"@.len() == 24);
    assert("Middle East Standard Time"@.len() == 25);
    assert("South Sudan Standard Time"@.len() == 25);
    assert("Kaliningrad Standard Time"@.len() == 25);
    assert("Afghanistan Standard Time"@.len() == 25);
    assert("Middle East Standard Time"@[0] == 'M');
    assert("South Sudan Standard Time"@[0] == 'S');
    assert("Kaliningrad Standard Time"@[0] == 'K');
    assert("Afghanistan Standard Time"@[0] == 'A');
    assert("South Africa Standard Time"@.len() == 26);
    assert("Ekaterinburg Standard Time"@.len() == 26);
    assert("South Africa Standard Time"@[0] == 'S');
    assert("Ekaterinburg Standard Time"@[0] == 'E');
    assert("Central Europe Standard Time"@.len() == 28);
    assert("Central European Standard Time"@.len() == 30);
    assert("W. Central Africa Standard Time"@.len() == 31);
}

/// The names that Windows has for zones east of India stand for these.
#[verifier::rlimit(100)]
pub proof fn eastern_zones_are_known(v: Seq<char>)
    ensures
        v == "Sri Lanka Standard Time"@ ==> east(v) == Some("Asia/Colombo"@),
        v == "Nepal Standard Time"@ ==> east(v) == Some("Asia/Katmandu"@),
        v == "Central Asia Standard Time"@ ==> east(v) == Some("Asia/Almaty"@),
        v == "Bangladesh Standard Time"@ ==> east(v) == Some("Asia/Dhaka"@),
        v == "Omsk Standard Time"@ ==> east(v) == Some("Asia/Omsk"@),
        v == "Myanmar Standard Time"@ ==> east(v) == Some("Asia/Rangoon"@),
        v == "SE Asia Standard Time"@ ==> east(v) == Some("Asia/Bangkok"@),
        v == "Altai Standard Time"@ ==> east(v) == Some("Asia/Barnaul"@),
        v == "W. Mongolia Standard Time"@ ==> east(v) == Some("Asia/Hovd"@),
        v == "North Asia Standard Time"@ ==> east(v) == Some("Asia/Krasnoyarsk"@),
        v == "N. Central Asia Standard Time"@ ==> east(v) == Some("Asia/Novosibirsk"@),
        v == "Tomsk Standard Time"@ ==> east(v) == Some("Asia/Tomsk"@),
        v == "China Standard Time"@ ==> east(v) == Some("Asia/Shanghai"@),
        v == "North Asia East Standard Time"@ ==> east(v) == Some("Asia/Irkutsk"@),
        v == "Singapore Standard Time"@ ==> east(v) == Some("Asia/Singapore"@),
        v == "W. Australia Standard Time"@ ==> east(v) == Some("Australia/Perth"@),
        v == "Taipei Standard Time"@ ==> east(v) == Some("Asia/Taipei"@),
        v == "Ulaanbaatar Standard Time"@ ==> east(v) == Some("Asia/Ulaanbaatar"@),
        v == "Aus Central W. Standard Time"@ ==> east(v) == Some("Australia/Eucla"@),
        v == "Transbaikal Standard Time"@ ==> east(v) == Some("Asia/Chita"@),
        v == "Tokyo Standard Time"@ ==> east(v) == Some("Asia/Tokyo"@),
        v == "North Korea Standard Time"@ ==> east(v) == Some("Asia/Pyongyang"@),
        v == "Korea Standard Time"@ ==> east(v) == Some("Asia/Seoul"@),
        v == "Yakutsk Standard Time"@ ==> east(v) == Some("Asia/Yakutsk"@),
        v == "Cen. Australia Standard Time"@ ==> east(v) == Some("Australia/Adelaide"@),
        v == "AUS Central Standard Time"@ ==> east(v) == Some("Australia/Darwin"@),
        v == "E. Australia Standard Time"@ ==> east(v) == Some("Australia/Brisbane"@),
        v == "AUS Eastern Standard Time"@ ==> east(v) == Some("Australia/Sydney"@),
        v == "West Pacific Standard Time"@ ==> east(v) == Some("Pacific/Port_Moresby"@),
        v == "Tasmania Standard Time"@ ==> east(v) == Some("Australia/Hobart"@),
        v == "Vladivostok Standard Time"@ ==> east(v) == Some("Asia/Vladivostok"@),
        v == "Lord Howe Standard Time"@ ==> east(v) == Some("Australia/Lord_Howe"@),
        v == "Bougainville Standard Time"@ ==> east(v) == Some("Pacific/Bougainville"@),
        v == "Russia Time Zone 10"@ ==> east(v) == Some("Asia/Srednekolymsk"@),
        v == "Magadan Standard Time"@ ==> east(v) == Some("Asia/Magadan"@),
        v == "Norfolk Standard Time"@ ==> east(v) == Some("Pacific/Norfolk"@),
        v == "Sakhalin Standard Time"@ ==> east(v) == Some("Asia/Sakhalin"@),
        v == "Central Pacific Standard Time"@ ==> east(v) == Some("Pacific/Guadalcanal"@),
        v == "Russia Time Zone 11"@ ==> east(v) == Some("Asia/Kamchatka"@),
        v == "New Zealand Standard Time"@ ==> east(v) == Some("Pacific/Auckland"@),
        v == "UTC+12"@ ==> east(v) == Some("Etc/GMT-12"@),
        v == "Fiji Standard Time"@ ==> east(v) == Some("Pacific/Fiji"@),
        v == "Chatham Islands Standard Time"@ ==> east(v) == Some("Pacific/Chatham"@),
        v == "UTC+13"@ ==> east(v) == Some("Etc/GMT-13"@),
        v == "Tonga Standard Time"@ ==> east(v) == Some("Pacific/Tongatapu"@),
        v == "Samoa Standard Time"@ ==> east(v) == Some("Pacific/Apia"@),
        v == "Line Islands Standard Time"@ ==> east(v) == Some("Pacific/Kiritimati"@),
{
    reveal_strlit("Sri Lanka Standard Time");
    reveal_strlit("Nepal Standard Time");
    reveal_strlit("Central Asia Standard Time");
    reveal_strlit("Bangladesh Standard Time");
    reveal_strlit("Omsk Standard Time");
    reveal_strlit("Myanmar Standard Time");
    reveal_strlit("SE Asia Standard Time");
    reveal_strlit("Altai Standard Time");
    reveal_strlit("W. Mongolia Standard Time");
    reveal_strlit("North Asia Standard Time");
    reveal_strlit("N. Central Asia Standard Time");
    reveal_strlit("Tomsk Standard Time");
    reveal_strlit("China Standard Time");
    reveal_strlit("North Asia East Standard Time");
    reveal_strlit("Singapore Standard Time");
    reveal_strlit("W. Australia Standard Time");
    reveal_strlit("Taipei Standard Time");
    reveal_strlit("Ulaanbaatar Standard Time");
    reveal_strlit("Aus Central W. Standard Time");
    reveal_strlit("Transbaikal Standard Time");
    reveal_strlit("Tokyo Standard Time");
    reveal_strlit("North Korea Standard Time");
    reveal_strlit("Korea Standard Time");
    reveal_strlit("Yakutsk Standard Time");
    reveal_strlit("Cen. Australia Standard Time");
    reveal_strlit("AUS Central Standard Time");
    reveal_strlit("E. Australia Standard Time");
    reveal_strlit("AUS Eastern Standard Time");
    reveal_strlit("West Pacific Standard Time");
    reveal_strlit("Tasmania Standard Time");
    reveal_strlit("Vladivostok Standard Time");
    reveal_strlit("Lord Howe Standard Time");
    reveal_strlit("Bougainville Standard Time");
    reveal_strlit("Russia Time Zone 10");
    reveal_strlit("Magadan Standard Time");
    reveal_strlit("Norfolk Standard Time");
    reveal_strlit("Sakhalin Standard Time");
    reveal_strlit("Central Pacific Standard Time");
    reveal_strlit("Russia Time Zone 11");
    reveal_strlit("New Zealand Standard Time");
    reveal_strlit("UTC+12");
    reveal_strlit("Fiji Standard Time");
    reveal_strlit("Chatham Islands Standard Time");
    reveal_strlit("UTC+13");
    reveal_strlit("Tonga Standard Time");
    reveal_strlit("Samoa Standard Time");
    reveal_strlit("Line Islands Standard Time");
    assert("UTC+12"@.len() == 6);
    assert("UTC+13"@.len() == 6);
    assert("UTC+12"@[5] == '2');
    assert("UTC+13"@[5] == '3');
    assert("Omsk Standard Time"@.len() == 18);
    assert("Fiji Standard Time"@.len() == 18);
    assert("Omsk Standard Time"@[0] == 'O');
    assert("Fiji Standard Time"@[0] == 'F');
    assert("Nepal Standard Time"@.len() == 19);
    assert("Altai Standard Time"@.len() == 19);
    assert("Tomsk Standard Time"@.len() == 19);
    assert("China Standard Time"@.len() == 19);
    assert("Tokyo Standard Time"@.len() == 19);
    assert("Korea Standard Time"@.len() == 19);
    assert("Russia Time Zone 10"@.len() == 19);
    assert("Russia Time Zone 11"@.len() == 19);
    assert("Tonga Standard Time"@.len() == 19);
    assert("Samoa Standard Time"@.len() == 19);
    assert("Nepal Standard Time"@[2] == 'p');
    assert("Nepal Standard Time"@[0] == 'N');
    assert("Nepal Standard Time"@[18] == 'e');
    assert("Altai Standard Time"@[2] == 't');
    assert("Altai Standard Time"@[0] == 'A');
    assert("Altai Standard Time"@[18] == 'e');
    assert("Tomsk Standard Time"@[2] == 'm');
    assert("Tomsk Standard Time"@[0] == 'T');
    assert("Tomsk Standard Time"@[18] == 'e');
    assert("China Standard Time"@[2] == 'i');
    assert("China Standard Time"@[0] == 'C');
    assert("China Standard Time"@[18] == 'e');
    assert("Tokyo Standard Time"@[2] == 'k');
    assert("Tokyo Standard Time"@[0] == 'T');
    assert("Tokyo Standard Time"@[18] == 'e');
    assert("Korea Standard Time"@[2] == 'r');
    assert("Korea Standard Time"@[0] == 'K');
    assert("Korea Standard Time"@[18] == 'e');
    assert("Russia Time Zone 10"@[2] == 's');
    assert("Russia Time Zone 10"@[0] == 'R');
    assert("Russia Time Zone 10"@[18] == '0');
    assert("Russia Time Zone 11"@[2] == 's');
    assert("Russia Time Zone 11"@[0] == 'R');
    assert("Russia Time Zone 11"@[18] == '1');
    assert("Tonga Standard Time"@[2] == 'n');
    assert("Tonga Standard Time"@[0] == 'T');
    assert("Tonga Standard Time"@[18] == 'e');
    assert("Samoa Standard Time"@[2] == 'm');
    assert("Samoa Standard Time"@[0] == 'S');
    assert("Samoa Standard Time"@[18] == 'e');
    assert("Taipei Standard Time"@.len() == 20);
    assert("Myanmar Standard Time"@.len() == 21);
    assert("SE Asia Standard Time"@.len() == 21);
    assert("Yakutsk Standard Time"@.len() == 21);
    assert("Magadan Standard Time"@.len() == 21);
    assert("Norfolk Standard Time"@.len() == 21);
    assert("Myanmar Standard Time"@[2] == 'a');
    assert("SE Asia Standard Time"@[2] == ' ');
    assert("Yakutsk Standard Time"@[2] == 'k');
    assert("Magadan Standard Time"@[2] == 'g');
    assert("Norfolk Standard Time"@[2] == 'r');
    assert("Tasmania Standard Time"@.len() == 22);
    assert("Sakhalin Standard Time"@.len() == 22);
    assert("Tasmania Standard Time"@[0] == 'T');
    assert("Sakhalin Standard Time"@[0] == 'S');
    assert("Sri Lanka Standard Time"@.len() == 23);
    assert("Singapore Standard Time"@.len() == 23);
    assert("Lord Howe Standard Time"@.len() == 23);
    assert("Sri Lanka Standard Time"@[1] == 'r');
    assert("Singapore Standard Time"@[1] == 'i');
    assert("Lord Howe Standard Time"@[1] == 'o');
    assert("Bangladesh Standard Time"@.len() == 24);
    assert("North Asia Standard Time"@.len() == 24);
    assert("Bangladesh Standard Time"@[0] == 'B');
    assert("North Asia Standard Time"@[0] == 'N');
    assert("W. Mongolia Standard Time"@.len() == 25);
    assert("Ulaanbaatar Standard Time"@.len() == 25);
    assert("Transbaikal Standard Time"@.len() == 25);
    assert("North Korea Standard Time"@.len() == 25);
    assert("AUS Central Standard Time"@.len() == 25);
    assert("AUS Eastern Standard Time"@.len() == 25);
    assert("Vladivostok Standard Time"@.len() == 25);
    assert("New Zealand Standard Time"@.len() == 25);
    assert("W. Mongolia Standard Time"@[4] == 'o');
    assert("Ulaanbaatar Standard Time"@[4] == 'n');
    assert("Transbaikal Standard Time"@[4] == 's');
    assert("North Korea Standard Time"@[4] == 'h');
    assert("AUS Central Standard Time"@[4] == 'C');
    assert("AUS Eastern Standard Time"@[4] == 'E');
    assert("Vladivostok Standard Time"@[4] == 'i');
    assert("New Zealand Standard Time"@[4] == 'Z');
    assert("Central Asia Standard Time"@.len() == 26);
    assert("W. Australia Standard Time"@.len() == 26);
    assert("E. Australia Standard Time"@.len() == 26);
    assert("West Pacific Standard Time"@.len() == 26);
    assert("Bougainville Standard Time"@.len() == 26);
    assert("Line Islands Standard Time"@.len() == 26);
    assert("Central Asia Standard Time"@[0] == 'C');
    assert("Central Asia Standard Time"@[1] == 'e');
    assert("W. Australia Standard Time"@[0] == 'W');
    assert("W. Australia Standard Time"@[1] == '.');
    assert("E. Australia Standard Time"@[0] == 'E');
    assert("E. Australia Standard Time"@[1] == '.');
    assert("West Pacific Standard Time"@[0] == 'W');
    assert("West Pacific Standard Time"@[1] == 'e');
    assert("Bougainville Standard Time"@[0] == 'B');
    assert("Bougainville Standard Time"@[1] == 'o');
    assert("Line Islands Standard Time"@[0] == 'L');
    assert("Line Islands Standard Time"@[1] == 'i');
    assert("Aus Central W. Standard Time"@.len() == 28);
    assert("Cen. Australia Standard Time"@.len() == 28);
    assert("Aus Central W. Standard Time"@[0] == 'A');
    assert("Cen. Australia Standard Time"@[0] == 'C');
    assert("N. Central Asia Standard Time"@.len() == 29);
    assert("North Asia East Standard Time"@.len() == 29);
    assert("Central Pacific Standard Time"@.len() == 29);
    assert("Chatham Islands Standard Time"@.len() == 29);
    assert("N. Central Asia Standard Time"@[1] == '.');
    assert("North Asia East Standard Time"@[1] == 'o');
    assert("Central Pacific Standard Time"@[1] == 'e');
    assert("Chatham Islands Standard Time"@[1] == 'h');
}

} // verus!