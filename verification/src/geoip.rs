//! GeoIP facts of an address: the country and the autonomous system, looked
//! up with `maxminddb` in City and ASN databases held in memory.
use vstd::prelude::*;

use crate::net::IpAddress;
use crate::route_config::{opt_text, GeoInfo, GeoView};
use crate::text::{chars_of, decimal_text, decimal_u32, string_from_chars};

verus! {

/// What `maxminddb` finds for the ISO code of the country of `ip` in the City
/// database `db`: `None` when the database cannot be opened or the lookup or
/// the decoding fails, `Some(None)` when the database has no record or no
/// code for the address.
pub uninterp spec fn mmdb_country_code(db: Seq<u8>, ip: IpAddress) -> Option<Option<Seq<char>>>;

/// What `maxminddb` finds for the number of the autonomous system of `ip` in
/// the ASN database `db`, in the same form.
pub uninterp spec fn mmdb_asn_number(db: Seq<u8>, ip: IpAddress) -> Option<Option<u32>>;

/// Whether `maxminddb` opens `db` as a database.
pub uninterp spec fn mmdb_opens(db: Seq<u8>) -> bool;

/// Calls `maxminddb::Reader::from_source` on `db` and tells whether it opened.
/// Claimed: the answer depends on the bytes alone; what it is, is only named.
#[verifier::external_body]
fn database_opens(db: &[u8]) -> (r: bool)
    ensures
        r == mmdb_opens(db@),
{
    maxminddb::Reader::from_source(db).is_ok()
}

/// The texts of a lookup's result.
pub open spec fn nested_text(r: Option<Option<String>>) -> Option<Option<Seq<char>>> {
    match r {
        Some(Some(s)) => Some(Some(s@)),
        Some(None) => Some(None),
        None => None,
    }
}

/// Opens `db` with `maxminddb::Reader::from_source`, looks `ip` up
/// (`Reader::lookup`) and decodes the record as a `geoip2::City`, taking the
/// country's ISO code. Claimed: the result depends on the bytes and the
/// address alone; what it is, is only named.
#[verifier::external_body]
fn lookup_country_code(db: &[u8], ip: &IpAddress) -> (r: Option<Option<String>>)
    ensures
        nested_text(r) == mmdb_country_code(db@, *ip),
{
    let reader = maxminddb::Reader::from_source(db).ok()?;
    let found = match ip {
        IpAddress::V4(octets) => reader.lookup((*octets).into()),
        IpAddress::V6(octets) => reader.lookup((*octets).into()),
    }.ok()?;
    let city = found.decode::<maxminddb::geoip2::City>().ok()?;
    Some(city.and_then(|c| c.country.iso_code.map(|code| code.to_string())))
}

/// Opens `db` with `maxminddb::Reader::from_source`, looks `ip` up
/// (`Reader::lookup`) and decodes the record as a `geoip2::Asn`, taking the
/// number of the autonomous system. Claimed: the result depends on the bytes
/// and the address alone; what it is, is only named.
#[verifier::external_body]
fn lookup_asn_number(db: &[u8], ip: &IpAddress) -> (r: Option<Option<u32>>)
    ensures
        r == mmdb_asn_number(db@, *ip),
{
    let reader = maxminddb::Reader::from_source(db).ok()?;
    let found = match ip {
        IpAddress::V4(octets) => reader.lookup((*octets).into()),
        IpAddress::V6(octets) => reader.lookup((*octets).into()),
    }.ok()?;
    let asn = found.decode::<maxminddb::geoip2::Asn>().ok()?;
    Some(asn.and_then(|a| a.autonomous_system_number))
}

/// The country of a lookup's result: its ISO code, the empty text when the
/// database holds none, and `None` when the lookup failed.
pub open spec fn country_text(r: Option<Option<Seq<char>>>) -> Option<Seq<char>> {
    match r {
        Some(Some(code)) => Some(code),
        Some(None) => Some(Seq::empty()),
        None => None,
    }
}

/// The autonomous system of a lookup's result: `AS` and its number, the empty
/// text when the database holds none, and `None` when the lookup failed.
pub open spec fn asn_text(r: Option<Option<u32>>) -> Option<Seq<char>> {
    match r {
        Some(Some(n)) => Some(seq!['A', 'S'] + decimal_text(n as nat)),
        Some(None) => Some(Seq::empty()),
        None => None,
    }
}

/// The country that a City lookup came to.
pub fn country_from_lookup(found: Option<Option<String>>) -> (r: Option<String>)
    ensures
        opt_text(r) == country_text(nested_text(found)),
{
    match found {
        Some(Some(code)) => Some(code),
        Some(None) => Some(String::new()),
        None => None,
    }
}

/// The autonomous system that an ASN lookup came to.
pub fn asn_from_lookup(found: Option<Option<u32>>) -> (r: Option<String>)
    ensures
        opt_text(r) == asn_text(found),
{
    match found {
        Some(Some(n)) => {
            let mut cs = chars_of("AS");
            proof {
                reveal_strlit("AS");
            }
            let digits = decimal_u32(n);
            let d = chars_of(digits.as_str());
            let ghost head = cs@;
            let mut i: usize = 0;
            while i < d.len()
                invariant
                    i <= d@.len(),
                    cs@ == head + d@.take(i as int),
                decreases d@.len() - i,
            {
                cs.push(d[i]);
                i = i + 1;
                assert(d@.take(i as int) =~= d@.take(i - 1).push(d@[i - 1]));
            }
            assert(d@.take(i as int) =~= d@);
            assert(cs@ =~= seq!['A', 'S'] + decimal_text(n as nat));
            Some(string_from_chars(cs.as_slice()))
        },
        Some(None) => Some(String::new()),
        None => None,
    }
}

/// The City and ASN databases, as read from their files.
pub struct GeoipReader {
    city_db: Vec<u8>,
    asn_db: Vec<u8>,
}

impl GeoipReader {
    /// The reader of the two databases when `maxminddb` opens both, else
    /// `None`.
    pub fn open(city_db: Vec<u8>, asn_db: Vec<u8>) -> (r: Option<Self>)
        ensures
            match r {
                Some(g) => g.wf() && g.city_bytes() == city_db@ && g.asn_bytes() == asn_db@,
                None => !(mmdb_opens(city_db@) && mmdb_opens(asn_db@)),
            },
    {
        if database_opens(city_db.as_slice()) && database_opens(asn_db.as_slice()) {
            Some(GeoipReader { city_db, asn_db })
        } else {
            None
        }
    }

    /// Both databases open.
    pub open spec fn wf(&self) -> bool {
        mmdb_opens(self.city_bytes()) && mmdb_opens(self.asn_bytes())
    }

    pub closed spec fn city_bytes(&self) -> Seq<u8> {
        self.city_db@
    }

    pub closed spec fn asn_bytes(&self) -> Seq<u8> {
        self.asn_db@
    }

    /// The ISO code of the country of `ip`; the empty text when the database
    /// holds none, and `None` when the lookup fails.
    pub fn get_country(&self, ip: &IpAddress) -> (r: Option<String>)
        ensures
            opt_text(r) == country_text(mmdb_country_code(self.city_bytes(), *ip)),
    {
        country_from_lookup(lookup_country_code(self.city_db.as_slice(), ip))
    }

    /// The autonomous system of `ip` as `AS` and its number; the empty text
    /// when the database holds none, and `None` when the lookup fails.
    pub fn get_asn(&self, ip: &IpAddress) -> (r: Option<String>)
        ensures
            opt_text(r) == asn_text(mmdb_asn_number(self.asn_bytes(), *ip)),
    {
        asn_from_lookup(lookup_asn_number(self.asn_db.as_slice(), ip))
    }

    /// The GeoIP facts of `ip`, a fact whose lookup failed left out.
    pub fn geo_info(&self, ip: &IpAddress) -> (r: GeoInfo)
        ensures
            r@ == (GeoView {
                country: country_text(mmdb_country_code(self.city_bytes(), *ip)),
                asn: asn_text(mmdb_asn_number(self.asn_bytes(), *ip)),
            }),
    {
        GeoInfo { country: self.get_country(ip), asn: self.get_asn(ip) }
    }
}

} // verus!
