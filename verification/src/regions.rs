//! The static region table: chat hosts by region code, matched without
//! regard to ASCII case, and the list of regions offered to the user.

use vstd::prelude::*;

verus! {

/// ASCII lowercasing of one character.
pub open spec fn lower_char(c: char) -> char {
    if 'A' <= c && c <= 'Z' {
        (((c as u8) + 32) as u8) as char
    } else {
        c
    }
}

/// ASCII lowercasing of a character sequence.
pub open spec fn lower_seq(s: Seq<char>) -> Seq<char> {
    Seq::new(s.len(), |i: int| lower_char(s[i]))
}

/// The chat host for a region code, found without regard to ASCII case;
/// `None` for a code outside the table.
pub open spec fn region_host(r: Seq<char>) -> Option<Seq<char>> {
    let l = lower_seq(r);
    if l == "br"@ || l == "br1"@ {
        Some("br1.chat.si.riotgames.com"@)
    } else if l == "eun"@ || l == "eun1"@ {
        Some("eun1.chat.si.riotgames.com"@)
    } else if l == "euw"@ || l == "euw1"@ {
        Some("euw1.chat.si.riotgames.com"@)
    } else if l == "jp"@ || l == "jp1"@ {
        Some("jp1.chat.si.riotgames.com"@)
    } else if l == "kr"@ || l == "kr1"@ {
        Some("kr1.chat.si.riotgames.com"@)
    } else if l == "la1"@ || l == "lan"@ {
        Some("la1.chat.si.riotgames.com"@)
    } else if l == "la2"@ || l == "las"@ {
        Some("la2.chat.si.riotgames.com"@)
    } else if l == "na"@ || l == "na1"@ || l == "na2"@ {
        Some("na2.chat.si.riotgames.com"@)
    } else if l == "oc"@ || l == "oc1"@ || l == "oce"@ {
        Some("oc1.chat.si.riotgames.com"@)
    } else if l == "ph"@ || l == "ph2"@ {
        Some("ph2.chat.si.riotgames.com"@)
    } else if l == "ru"@ || l == "ru1"@ {
        Some("ru1.chat.si.riotgames.com"@)
    } else if l == "sg"@ || l == "sg2"@ {
        Some("sg2.chat.si.riotgames.com"@)
    } else if l == "th"@ || l == "th2"@ {
        Some("th2.chat.si.riotgames.com"@)
    } else if l == "tr"@ || l == "tr1"@ {
        Some("tr1.chat.si.riotgames.com"@)
    } else if l == "tw"@ || l == "tw2"@ {
        Some("tw2.chat.si.riotgames.com"@)
    } else if l == "vn"@ || l == "vn2"@ {
        Some("vn2.chat.si.riotgames.com"@)
    } else {
        None
    }
}

/// Whether `r`, lowercased, reads as `code`.
fn eq_lower(r: &str, code: &str) -> (b: bool)
    ensures
        b == (lower_seq(r@) == code@),
{
    let n: usize = r.unicode_len();
    let m: usize = code.unicode_len();
    if n != m {
        proof {
            assert(lower_seq(r@).len() == r@.len());
        }
        return false;
    }
    let mut i: usize = 0;
    while i < n
        invariant
            0 <= i <= n,
            n == r@.len(),
            n == code@.len(),
            forall|k: int| 0 <= k < i ==> lower_char(r@[k]) == code@[k],
        decreases n - i,
    {
        let c = r.get_char(i);
        let lc: char = if c >= 'A' && c <= 'Z' {
            ((c as u8) + 32) as char
        } else {
            c
        };
        proof {
            assert(lc == lower_char(r@[i as int]));
        }
        if lc != code.get_char(i) {
            proof {
                assert(lower_seq(r@)[i as int] == lower_char(r@[i as int]));
            }
            return false;
        }
        i = i + 1;
    }
    proof {
        assert(lower_seq(r@) =~= code@);
    }
    true
}

/// The chat host serving a region, used as a fallback before the real host
/// is discovered from the intercepted configuration.
pub fn chat_server_for_region(region: &str) -> (r: Option<&'static str>)
    ensures
        match r {
            Some(s) => region_host(region@) == Some(s@),
            None => region_host(region@) is None,
        },
{
    if eq_lower(region, "br") || eq_lower(region, "br1") {
        Some("br1.chat.si.riotgames.com")
    } else if eq_lower(region, "eun") || eq_lower(region, "eun1") {
        Some("eun1.chat.si.riotgames.com")
    } else if eq_lower(region, "euw") || eq_lower(region, "euw1") {
        Some("euw1.chat.si.riotgames.com")
    } else if eq_lower(region, "jp") || eq_lower(region, "jp1") {
        Some("jp1.chat.si.riotgames.com")
    } else if eq_lower(region, "kr") || eq_lower(region, "kr1") {
        Some("kr1.chat.si.riotgames.com")
    } else if eq_lower(region, "la1") || eq_lower(region, "lan") {
        Some("la1.chat.si.riotgames.com")
    } else if eq_lower(region, "la2") || eq_lower(region, "las") {
        Some("la2.chat.si.riotgames.com")
    } else if eq_lower(region, "na") || eq_lower(region, "na1") || eq_lower(region, "na2") {
        Some("na2.chat.si.riotgames.com")
    } else if eq_lower(region, "oc") || eq_lower(region, "oc1") || eq_lower(region, "oce") {
        Some("oc1.chat.si.riotgames.com")
    } else if eq_lower(region, "ph") || eq_lower(region, "ph2") {
        Some("ph2.chat.si.riotgames.com")
    } else if eq_lower(region, "ru") || eq_lower(region, "ru1") {
        Some("ru1.chat.si.riotgames.com")
    } else if eq_lower(region, "sg") || eq_lower(region, "sg2") {
        Some("sg2.chat.si.riotgames.com")
    } else if eq_lower(region, "th") || eq_lower(region, "th2") {
        Some("th2.chat.si.riotgames.com")
    } else if eq_lower(region, "tr") || eq_lower(region, "tr1") {
        Some("tr1.chat.si.riotgames.com")
    } else if eq_lower(region, "tw") || eq_lower(region, "tw2") {
        Some("tw2.chat.si.riotgames.com")
    } else if eq_lower(region, "vn") || eq_lower(region, "vn2") {
        Some("vn2.chat.si.riotgames.com")
    } else {
        None
    }
}

/// One entry of the region selector.
#[derive(Debug, Clone)]
pub struct RegionInfo {
    pub code: String,
    pub name: String,
}

/// The regions offered in the selector, in display order.
pub fn get_regions() -> (r: Vec<RegionInfo>)
    ensures
        r@.len() == 16,
        r@[0].code@ == "br"@ && r@[0].name@ == "Brazil"@,
        r@[1].code@ == "eun"@ && r@[1].name@ == "EU Nordic & East"@,
        r@[2].code@ == "euw"@ && r@[2].name@ == "EU West"@,
        r@[3].code@ == "jp"@ && r@[3].name@ == "Japan"@,
        r@[4].code@ == "kr"@ && r@[4].name@ == "Korea"@,
        r@[5].code@ == "la1"@ && r@[5].name@ == "Latin America North"@,
        r@[6].code@ == "la2"@ && r@[6].name@ == "Latin America South"@,
        r@[7].code@ == "na"@ && r@[7].name@ == "North America"@,
        r@[8].code@ == "oc"@ && r@[8].name@ == "Oceania"@,
        r@[9].code@ == "ph"@ && r@[9].name@ == "Philippines"@,
        r@[10].code@ == "ru"@ && r@[10].name@ == "Russia"@,
        r@[11].code@ == "sg"@ && r@[11].name@ == "Singapore"@,
        r@[12].code@ == "th"@ && r@[12].name@ == "Thailand"@,
        r@[13].code@ == "tr"@ && r@[13].name@ == "Turkey"@,
        r@[14].code@ == "tw"@ && r@[14].name@ == "Taiwan"@,
        r@[15].code@ == "vn"@ && r@[15].name@ == "Vietnam"@,
{
    let mut v: Vec<RegionInfo> = Vec::new();
    v.push(RegionInfo { code: String::from_str("br"), name: String::from_str("Brazil") });
    v.push(
        RegionInfo { code: String::from_str("eun"), name: String::from_str("EU Nordic & East") },
    );
    v.push(RegionInfo { code: String::from_str("euw"), name: String::from_str("EU West") });
    v.push(RegionInfo { code: String::from_str("jp"), name: String::from_str("Japan") });
    v.push(RegionInfo { code: String::from_str("kr"), name: String::from_str("Korea") });
    v.push(
        RegionInfo { code: String::from_str("la1"), name: String::from_str("Latin America North") },
    );
    v.push(
        RegionInfo { code: String::from_str("la2"), name: String::from_str("Latin America South") },
    );
    v.push(RegionInfo { code: String::from_str("na"), name: String::from_str("North America") });
    v.push(RegionInfo { code: String::from_str("oc"), name: String::from_str("Oceania") });
    v.push(RegionInfo { code: String::from_str("ph"), name: String::from_str("Philippines") });
    v.push(RegionInfo { code: String::from_str("ru"), name: String::from_str("Russia") });
    v.push(RegionInfo { code: String::from_str("sg"), name: String::from_str("Singapore") });
    v.push(RegionInfo { code: String::from_str("th"), name: String::from_str("Thailand") });
    v.push(RegionInfo { code: String::from_str("tr"), name: String::from_str("Turkey") });
    v.push(RegionInfo { code: String::from_str("tw"), name: String::from_str("Taiwan") });
    v.push(RegionInfo { code: String::from_str("vn"), name: String::from_str("Vietnam") });
    v
}

} // verus!
