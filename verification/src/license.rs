//! SPDX licenses of CoconutPaks, looked up in the `license` crate's list.
use vstd::prelude::*;

verus! {

/// What the `license` crate knows of an SPDX license.
pub struct LicenseFacts {
    pub name: String,
    pub id: String,
    pub osi: bool,
    pub libre: bool,
    pub see_also: Vec<String>,
}

pub struct LicenseFactsView {
    pub name: Seq<char>,
    pub id: Seq<char>,
    pub osi: bool,
    pub libre: bool,
    pub see_also: Seq<Seq<char>>,
}

impl View for LicenseFacts {
    type V = LicenseFactsView;

    open spec fn view(&self) -> LicenseFactsView {
        LicenseFactsView {
            name: self.name@,
            id: self.id@,
            osi: self.osi,
            libre: self.libre,
            see_also: self.see_also@.map_values(|s: String| s@),
        }
    }
}

#[verifier::external_type_specification]
#[verifier::external_body]
pub struct ExLicenseParseError(license::ParseError);

/// The license the `license` crate lists under an SPDX id, if any.
pub uninterp spec fn spdx_license(id: Seq<char>) -> Option<LicenseFactsView>;

/// Parsing an SPDX id as `&dyn license::License` (its `FromStr`), with the
/// license's name, id, OSI approval, FSF libre status and see-also links
/// copied out.  Claimed: it succeeds exactly when `spdx_license(id)` lists a
/// license, whose facts it then gives; the crate matches the id exactly, so
/// the license's id is the id asked for.  The crate's list (the SPDX list)
/// holds no license with the id `AllRightsReserved`.
#[verifier::external_body]
fn lookup_license(id: &str) -> (r: Result<LicenseFacts, license::ParseError>)
    ensures
        r is Ok <==> spdx_license(id@) is Some,
        r matches Ok(f) ==> spdx_license(id@) == Some(f@) && f@.id == id@,
        id@ == "AllRightsReserved"@ ==> r is Err,
{
    id.parse::<&dyn license::License>().map(|l| LicenseFacts {
        name: l.name().to_string(),
        id: l.id().to_string(),
        osi: l.is_osi_approved(),
        libre: l.is_fsf_libre(),
        see_also: l.see_also().iter().map(|s| s.to_string()).collect(),
    })
}

/// Texts joined with a separator between each two.
pub open spec fn joined(parts: Seq<Seq<char>>, sep: Seq<char>) -> Seq<char>
    decreases parts.len(),
{
    if parts.len() == 0 {
        Seq::empty()
    } else if parts.len() == 1 {
        parts[0]
    } else {
        joined(parts.drop_last(), sep) + sep + parts.last()
    }
}

/// `[String]::join`.
pub fn join_texts(parts: &Vec<String>, sep: &str) -> (r: String)
    ensures
        r@ == joined(parts@.map_values(|s: String| s@), sep@),
{
    let ghost pv = parts@.map_values(|s: String| s@);
    let mut r = String::new();
    let mut k: usize = 0;
    while k < parts.len()
        invariant
            pv == parts@.map_values(|s: String| s@),
            0 <= k <= parts@.len(),
            r@ == joined(pv.take(k as int), sep@),
        decreases parts@.len() - k,
    {
        proof {
            assert(pv.take(k + 1).drop_last() =~= pv.take(k as int));
        }
        if k == 0 {
            r.append(parts[k].as_str());
            proof {
                assert(pv.take(1) =~= seq![pv[0]]);
                assert(r@ =~= joined(pv.take(1), sep@));
            }
        } else {
            r.append(sep);
            r.append(parts[k].as_str());
        }
        k = k + 1;
    }
    proof {
        assert(pv.take(parts@.len() as int) =~= pv);
    }
    r
}

/// An SPDX license as a CoconutPak records it.
#[derive(Clone, Debug, PartialEq, Eq, Hash, PartialOrd)]
pub struct SPDXLicense {
    name: String,
    id: String,
    osi: bool,
    libre: bool,
    addendum: String,
}

pub struct SPDXLicenseView {
    pub name: Seq<char>,
    pub id: Seq<char>,
    pub osi: bool,
    pub libre: bool,
    pub addendum: Seq<char>,
}

impl View for SPDXLicense {
    type V = SPDXLicenseView;

    closed spec fn view(&self) -> SPDXLicenseView {
        SPDXLicenseView {
            name: self.name@,
            id: self.id@,
            osi: self.osi,
            libre: self.libre,
            addendum: self.addendum@,
        }
    }
}

/// The record of a license the crate lists: its see-also links joined by
/// `" , "`.
pub open spec fn license_record(f: LicenseFactsView) -> SPDXLicenseView {
    SPDXLicenseView {
        name: f.name,
        id: f.id,
        osi: f.osi,
        libre: f.libre,
        addendum: joined(f.see_also, " , "@),
    }
}

/// The license `from_id` gives for an id.
pub open spec fn license_of_id(id: Seq<char>) -> SPDXLicenseView {
    match spdx_license(id) {
        Some(f) => license_record(f),
        None => all_rights_reserved(),
    }
}

/// The record used when no license is known.
pub open spec fn all_rights_reserved() -> SPDXLicenseView {
    SPDXLicenseView {
        name: "All Rights Reserved"@,
        id: "AllRightsReserved"@,
        osi: false,
        libre: false,
        addendum: Seq::empty(),
    }
}

impl SPDXLicense {
    /// The license with an SPDX id; an id the crate does not list is an
    /// error.
    pub fn new(spdx_str: &str) -> (r: Result<SPDXLicense, license::ParseError>)
        ensures
            r is Ok <==> spdx_license(spdx_str@) is Some,
            r matches Ok(l) ==> l@ == license_record(spdx_license(spdx_str@)->0) && l@.id == spdx_str@,
            spdx_str@ == all_rights_reserved().id ==> r is Err,
            r matches Ok(l) ==> {
                let f = spdx_license(spdx_str@)->0;
                &&& l@.name == f.name
                &&& l@.osi == f.osi
                &&& l@.libre == f.libre
                &&& l@.addendum == joined(f.see_also, " , "@)
            },
    {
        match lookup_license(spdx_str) {
            Ok(f) => {
                let addendum = join_texts(&f.see_also, " , ");
                Ok(SPDXLicense { name: f.name, id: f.id, osi: f.osi, libre: f.libre, addendum })
            },
            Err(e) => Err(e),
        }
    }

    pub fn name(&self) -> (r: &str)
        ensures
            r@ == self@.name,
    {
        self.name.as_str()
    }

    pub fn id(&self) -> (r: &str)
        ensures
            r@ == self@.id,
    {
        self.id.as_str()
    }

    pub fn osi(&self) -> (r: bool)
        ensures
            r == self@.osi,
    {
        self.osi
    }

    pub fn libre(&self) -> (r: bool)
        ensures
            r == self@.libre,
    {
        self.libre
    }

    pub fn addendum(&self) -> (r: &str)
        ensures
            r@ == self@.addendum,
    {
        self.addendum.as_str()
    }

    /// "All Rights Reserved", the license of a pak that names none.
    pub fn default() -> (r: SPDXLicense)
        ensures
            r@ == all_rights_reserved(),
    {
        SPDXLicense {
            name: String::from_str("All Rights Reserved"),
            id: String::from_str("AllRightsReserved"),
            osi: false,
            libre: false,
            addendum: String::new(),
        }
    }

    /// The license with an SPDX id, or "All Rights Reserved" for an id the
    /// crate does not list (`From<String>`).
    pub fn from_id(spdx_id: String) -> (r: SPDXLicense)
        ensures
            r@ == license_of_id(spdx_id@),
            spdx_license(spdx_id@) is Some ==> r@.id == spdx_id@,
            spdx_id@ == all_rights_reserved().id ==> r@ == all_rights_reserved(),
    {
        match SPDXLicense::new(spdx_id.as_str()) {
            Ok(l) => l,
            Err(_) => SPDXLicense::default(),
        }
    }

    /// The SPDX id by which the license is stored (`From<SPDXLicense> for
    /// String`).
    pub fn into_id(self) -> (r: String)
        ensures
            r@ == self@.id,
    {
        self.id
    }
}

/// A license the crate lists (as `new` gives it) stored by its id reads
/// back as itself.  (The "All Rights Reserved" record does too: `from_id`
/// gives it back for its id.)
pub proof fn lemma_license_id_round_trip(id: Seq<char>)
    requires
        spdx_license(id) matches Some(f) && f.id == id,
    ensures
        license_of_id(license_record(spdx_license(id)->0).id) == license_record(spdx_license(id)->0),
{
}

/// A license the crate lists is recorded with the crate's own facts: its
/// name and id, whether OSI approves it and whether the FSF counts it as
/// libre, unchanged, and its see-also links joined by `" , "`; an id the
/// crate does not list gives "All Rights Reserved", neither approved nor
/// libre.
pub proof fn lemma_license_keeps_listed_facts(id: Seq<char>)
    ensures
        spdx_license(id) matches Some(f) ==> {
            &&& license_of_id(id).name == f.name
            &&& license_of_id(id).id == f.id
            &&& license_of_id(id).osi == f.osi
            &&& license_of_id(id).libre == f.libre
            &&& license_of_id(id).addendum == joined(f.see_also, " , "@)
        },
        spdx_license(id) is None ==> {
            &&& license_of_id(id).name == "All Rights Reserved"@
            &&& license_of_id(id).id == "AllRightsReserved"@
            &&& !license_of_id(id).osi
            &&& !license_of_id(id).libre
        },
{
}

} // verus!
