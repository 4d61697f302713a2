//! The decisions of the CoconutPak Island server: which version or reports
//! a request gets, who may yank, how secrets and cache keys are written.
//! Reading and writing the database and the cache is the caller's part.
use vstd::prelude::*;

verus! {

/// `None` when `semver::Version::parse` accepts a text, else the text of
/// its error.
pub uninterp spec fn semver_verdict(text: Seq<char>) -> Option<Seq<char>>;

/// The character of the standard base64 alphabet for a six-bit value.
pub open spec fn base64_char(n: int) -> char {
    if n < 26 {
        ('A' as int + n) as char
    } else if n < 52 {
        ('a' as int + (n - 26)) as char
    } else if n < 62 {
        ('0' as int + (n - 52)) as char
    } else if n == 62 {
        '+'
    } else {
        '/'
    }
}

/// The standard, padded base64 text of some bytes: every three bytes become
/// four characters of six bits each; a last one or two bytes become two or
/// three characters (the missing low bits zero) and `=` padding to four.
pub open spec fn base64_text(b: Seq<u8>) -> Seq<char>
    decreases b.len(),
{
    let x: int = if b.len() > 0 { b[0] as int } else { 0 };
    let y: int = if b.len() > 1 { b[1] as int } else { 0 };
    let z: int = if b.len() > 2 { b[2] as int } else { 0 };
    if b.len() == 0 {
        Seq::empty()
    } else if b.len() == 1 {
        seq![base64_char(x / 4), base64_char((x % 4) * 16), '=', '=']
    } else if b.len() == 2 {
        seq![base64_char(x / 4), base64_char((x % 4) * 16 + y / 16), base64_char((y % 16) * 4), '=']
    } else {
        seq![
            base64_char(x / 4),
            base64_char((x % 4) * 16 + y / 16),
            base64_char((y % 16) * 4 + z / 64),
            base64_char(z % 64),
        ] + base64_text(b.skip(3))
    }
}

/// `semver::Version::parse`, keeping only its error's text.  Claimed: the
/// outcome is `semver_verdict(text)`.
#[verifier::external_body]
fn semver_check(text: &str) -> (r: Option<String>)
    ensures
        r is None <==> semver_verdict(text@) is None,
        r matches Some(e) ==> semver_verdict(text@) == Some(e@),
{
    match semver::Version::parse(text) {
        Ok(_) => None,
        Err(e) => Some(e.to_string()),
    }
}

/// `base64::encode` (the standard alphabet, padded).  Claimed, as the
/// crate documents it: the result is `base64_text(bytes)`.
#[verifier::external_body]
fn base64_encode(bytes: &[u8]) -> (r: String)
    ensures
        r@ == base64_text(bytes@),
{
    base64::encode(bytes)
}

/// A published CoconutPak.
pub struct PakRecord {
    pub id: u64,
    pub name: String,
    pub owner: u64,
    pub subscribers: u32,
    pub verified: bool,
}

/// A version of a CoconutPak, its version by its text.
pub struct PakVersionRecord {
    pub id: u64,
    pub coconutpak: u64,
    pub version: String,
    pub yanked: bool,
}

/// A report against a version of a CoconutPak; `date` in milliseconds.
pub struct ReportRecord {
    pub reporter: u64,
    pub target_pak: u64,
    pub date: i64,
    pub reason: String,
    pub version: String,
}

/// A user of the server.
pub struct UserRecord {
    pub uuid: u64,
    pub github_id: u64,
    pub username: String,
    pub restricted_account: bool,
    pub administrator_account: bool,
    pub fake_account: bool,
    pub email: Option<String>,
}

/// What an API key may be used for.
#[derive(Copy, Clone, Debug, PartialEq, Eq, Structural)]
pub enum Scopes {
    Admin,
    Report,
    ListReports,
    Yank,
    Download,
    Publish,
}

impl Scopes {
    /// Every scope.
    pub fn all() -> (r: Vec<Scopes>)
        ensures
            r@ == seq![
                Scopes::Admin,
                Scopes::Report,
                Scopes::ListReports,
                Scopes::Yank,
                Scopes::Download,
                Scopes::Publish,
            ],
    {
        let r = vec![
            Scopes::Admin,
            Scopes::Report,
            Scopes::ListReports,
            Scopes::Yank,
            Scopes::Download,
            Scopes::Publish,
        ];
        assert(r@ =~= seq![
            Scopes::Admin,
            Scopes::Report,
            Scopes::ListReports,
            Scopes::Yank,
            Scopes::Download,
            Scopes::Publish,
        ]);
        r
    }

    /// The administrator's scope.
    pub fn admin() -> (r: Scopes)
        ensures
            r == Scopes::Admin,
    {
        Scopes::Admin
    }

    /// Whether this scope is granted by the scopes a caller holds: the
    /// administrator's scope always is, any other when it is among them.
    pub fn has_permission(&self, incoming: &[Scopes]) -> (r: bool)
        ensures
            r == (*self == Scopes::Admin || incoming@.contains(*self)),
    {
        if *self == Scopes::Admin {
            return true;
        }
        let mut k: usize = 0;
        while k < incoming.len()
            invariant
                0 <= k <= incoming@.len(),
                forall|j: int| 0 <= j < k ==> incoming@[j] != *self,
            decreases incoming@.len() - k,
        {
            if incoming[k] == *self {
                return true;
            }
            k = k + 1;
        }
        false
    }
}

/// How a caller authenticated: by an API key, with its owner and scopes.
pub enum Authorized {
    ApiKey(u64, Vec<Scopes>),
}

/// The user a request is made for, once its key checked out.
pub struct CoconutPakUserAuthentication(pub UserRecord);

/// The versions of the API.
#[derive(Copy, Clone, Debug, PartialEq, Eq, Structural, Hash)]
pub enum VersionTags {
    V1,
}

/// What a user of the store layer can be allowed to do.
pub enum UserPermissions {
    All,
    Admin,
    Demote,
    Promote,
    YankSelf,
    YankOthers,
    Publish,
}

/// The layer that turns suspended users away.
pub struct SuspendedLayer {}

/// The error of the store layer.
pub enum ServerError {
    NotFound { what: String, detail: String },
    BadArgument { argument: String, why: String },
    Message(String),
}

/// The error an API call answers with.
pub enum ApiError {
    NotFound(String),
    Forbidden(String),
    BadRequest(String),
    InternalServerError(String),
    NotImplemented(String),
}

pub struct PakVersionView {
    pub id: u64,
    pub coconutpak: u64,
    pub version: Seq<char>,
    pub yanked: bool,
}

pub struct ReportView {
    pub reporter: u64,
    pub target_pak: u64,
    pub date: i64,
    pub reason: Seq<char>,
    pub version: Seq<char>,
}

pub enum ServerErrorView {
    NotFound { what: Seq<char>, detail: Seq<char> },
    BadArgument { argument: Seq<char>, why: Seq<char> },
    Message(Seq<char>),
}

pub enum ApiErrorView {
    NotFound(Seq<char>),
    Forbidden(Seq<char>),
    BadRequest(Seq<char>),
    InternalServerError(Seq<char>),
    NotImplemented(Seq<char>),
}

impl View for PakVersionRecord {
    type V = PakVersionView;

    open spec fn view(&self) -> PakVersionView {
        PakVersionView { id: self.id, coconutpak: self.coconutpak, version: self.version@, yanked: self.yanked }
    }
}

impl View for ReportRecord {
    type V = ReportView;

    open spec fn view(&self) -> ReportView {
        ReportView {
            reporter: self.reporter,
            target_pak: self.target_pak,
            date: self.date,
            reason: self.reason@,
            version: self.version@,
        }
    }
}

impl View for ServerError {
    type V = ServerErrorView;

    open spec fn view(&self) -> ServerErrorView {
        match self {
            ServerError::NotFound { what, detail } => ServerErrorView::NotFound { what: what@, detail: detail@ },
            ServerError::BadArgument { argument, why } => ServerErrorView::BadArgument {
                argument: argument@,
                why: why@,
            },
            ServerError::Message(m) => ServerErrorView::Message(m@),
        }
    }
}

impl View for ApiError {
    type V = ApiErrorView;

    open spec fn view(&self) -> ApiErrorView {
        match self {
            ApiError::NotFound(m) => ApiErrorView::NotFound(m@),
            ApiError::Forbidden(m) => ApiErrorView::Forbidden(m@),
            ApiError::BadRequest(m) => ApiErrorView::BadRequest(m@),
            ApiError::InternalServerError(m) => ApiErrorView::InternalServerError(m@),
            ApiError::NotImplemented(m) => ApiErrorView::NotImplemented(m@),
        }
    }
}

pub open spec fn versions_view(v: Seq<PakVersionRecord>) -> Seq<PakVersionView> {
    v.map_values(|x: PakVersionRecord| x@)
}

pub open spec fn reports_view(v: Seq<ReportRecord>) -> Seq<ReportView> {
    v.map_values(|x: ReportRecord| x@)
}

/// The decimal digits of a number.
pub open spec fn decimal(n: nat) -> Seq<char>
    decreases n,
{
    if n < 10 {
        seq![digit_char(n)]
    } else {
        decimal(n / 10) + seq![digit_char(n % 10)]
    }
}

pub open spec fn digit_char(d: nat) -> char {
    if d == 0 {
        '0'
    } else if d == 1 {
        '1'
    } else if d == 2 {
        '2'
    } else if d == 3 {
        '3'
    } else if d == 4 {
        '4'
    } else if d == 5 {
        '5'
    } else if d == 6 {
        '6'
    } else if d == 7 {
        '7'
    } else if d == 8 {
        '8'
    } else {
        '9'
    }
}

/// The number a text of decimal digits stands for.
pub open spec fn digits_value(s: Seq<char>) -> int
    decreases s.len(),
{
    if s.len() == 0 {
        0
    } else {
        digits_value(s.drop_last()) * 10 + (s.last() as int - '0' as int)
    }
}

/// A number written in decimal is made of the digits `0`..=`9`, starts
/// with no `0` unless it is zero, and reads back as the number.
pub proof fn lemma_decimal_reads_back(n: nat)
    ensures
        decimal(n).len() > 0,
        forall|i: int| 0 <= i < decimal(n).len() ==> '0' <= #[trigger] decimal(n)[i] && decimal(n)[i] <= '9',
        n > 0 ==> decimal(n)[0] != '0',
        digits_value(decimal(n)) == n,
    decreases n,
{
    assert(digit_char(n % 10) as int - '0' as int == n % 10);
    if n < 10 {
        let s = decimal(n);
        assert(s.drop_last() =~= Seq::<char>::empty());
        assert(digits_value(s.drop_last()) == 0);
        assert(s.last() == digit_char(n % 10));
    } else {
        lemma_decimal_reads_back(n / 10);
        let h = decimal(n / 10);
        let s = decimal(n);
        assert(s == h + seq![digit_char(n % 10)]);
        assert(s.drop_last() =~= h);
        assert forall|i: int| 0 <= i < s.len() implies '0' <= #[trigger] s[i] && s[i] <= '9' by {
            if i < h.len() {
                assert(s[i] == h[i]);
            }
        }
        assert(s[0] == h[0]);
        assert(s.last() == digit_char(n % 10));
        assert(digits_value(s) == digits_value(h) * 10 + (digit_char(n % 10) as int - '0' as int));
        assert((n / 10) * 10 + n % 10 == n);
    }
}

fn digit_text(d: u64) -> (r: String)
    requires
        d < 10,
    ensures
        r@ == seq![digit_char(d as nat)],
{
    let s = if d == 0 {
        "0"
    } else if d == 1 {
        "1"
    } else if d == 2 {
        "2"
    } else if d == 3 {
        "3"
    } else if d == 4 {
        "4"
    } else if d == 5 {
        "5"
    } else if d == 6 {
        "6"
    } else if d == 7 {
        "7"
    } else if d == 8 {
        "8"
    } else {
        "9"
    };
    proof {
        reveal_strlit("0");
        reveal_strlit("1");
        reveal_strlit("2");
        reveal_strlit("3");
        reveal_strlit("4");
        reveal_strlit("5");
        reveal_strlit("6");
        reveal_strlit("7");
        reveal_strlit("8");
        reveal_strlit("9");
    }
    String::from_str(s)
}

/// A number written in decimal, as `Display` writes it.
pub fn decimal_text(n: u64) -> (r: String)
    ensures
        r@ == decimal(n as nat),
    decreases n,
{
    if n < 10 {
        digit_text(n)
    } else {
        let head = decimal_text(n / 10);
        let tail = digit_text(n % 10);
        head.concat(tail.as_str())
    }
}

fn copy_version(v: &PakVersionRecord) -> (r: PakVersionRecord)
    ensures
        r@ == v@,
{
    PakVersionRecord { id: v.id, coconutpak: v.coconutpak, version: v.version.clone(), yanked: v.yanked }
}

fn copy_report(v: &ReportRecord) -> (r: ReportRecord)
    ensures
        r@ == v@,
{
    ReportRecord {
        reporter: v.reporter,
        target_pak: v.target_pak,
        date: v.date,
        reason: v.reason.clone(),
        version: v.version.clone(),
    }
}

/// A version tag must parse as a semantic version.
pub fn check_version_tag(version: &str) -> (r: Result<(), ServerError>)
    ensures
        match semver_verdict(version@) {
            None => r is Ok,
            Some(why) => r matches Err(e) && e@ == (ServerErrorView::BadArgument { argument: "version"@, why }),
        },
{
    match semver_check(version) {
        None => Ok(()),
        Some(why) => Err(ServerError::BadArgument { argument: String::from_str("version"), why }),
    }
}

/// The position of the last version with the given text.
pub open spec fn last_version_at(vs: Seq<PakVersionView>, v: Seq<char>) -> Option<int>
    decreases vs.len(),
{
    if vs.len() == 0 {
        None
    } else if vs.last().version == v {
        Some(vs.len() - 1)
    } else {
        last_version_at(vs.drop_last(), v)
    }
}

/// The version picked for a text is one of the pak's versions and carries
/// that text, and no later version does; none is picked only when no
/// version carries it.
pub proof fn lemma_picked_version_matches(vs: Seq<PakVersionView>, v: Seq<char>)
    ensures
        last_version_at(vs, v) matches Some(i) ==> 0 <= i < vs.len() && vs[i].version == v && forall|j: int|
            i < j < vs.len() ==> (#[trigger] vs[j]).version != v,
        last_version_at(vs, v) is None <==> forall|j: int| 0 <= j < vs.len() ==> (#[trigger] vs[j]).version != v,
    decreases vs.len(),
{
    if vs.len() > 0 {
        if vs.last().version != v {
            let t = vs.drop_last();
            lemma_picked_version_matches(t, v);
            assert forall|j: int| 0 <= j < t.len() implies #[trigger] vs[j] == t[j] by {}
            if last_version_at(vs, v) is None {
                assert forall|j: int| 0 <= j < vs.len() implies (#[trigger] vs[j]).version != v by {
                    if j < t.len() {
                        assert(vs[j] == t[j]);
                    }
                }
            } else {
                let i = last_version_at(vs, v)->0;
                assert(vs[i] == t[i]);
                assert forall|j: int| i < j < vs.len() implies (#[trigger] vs[j]).version != v by {
                    if j < t.len() {
                        assert(vs[j] == t[j]);
                    }
                }
                assert(vs[i].version == v);
            }
        } else {
            assert(vs[vs.len() - 1].version == v);
        }
    }
}

/// The last of a pak's versions with the given text, if any (the versions
/// kept that match, and the last of them taken).
pub fn pick_version(versions: Vec<PakVersionRecord>, version: &str) -> (r: Option<PakVersionRecord>)
    ensures
        match last_version_at(versions_view(versions@), version@) {
            None => r is None,
            Some(i) => r matches Some(x) && x@ == versions_view(versions@)[i],
        },
{
    let ghost all = versions_view(versions@);
    let key = version.to_owned();
    let mut rest = versions;
    while rest.len() > 0
        invariant
            key@ == version@,
            all == versions_view(versions@),
            versions_view(rest@) == all.take(rest@.len() as int),
            rest@.len() <= all.len(),
            last_version_at(all, version@) == last_version_at(versions_view(rest@), version@),
        decreases rest@.len(),
    {
        let ghost before = versions_view(rest@);
        let last = rest.pop().unwrap();
        proof {
            assert(versions_view(rest@) =~= before.drop_last());
            assert(before.last() == last@);
        }
        if last.version == key {
            proof {
                assert(before.last().version == version@);
                assert(last_version_at(before, version@) == Some(before.len() - 1));
                assert(all[before.len() - 1] == before[before.len() - 1]);
            }
            return Some(last);
        }
        proof {
            assert(versions_view(rest@) =~= all.take(rest@.len() as int));
        }
    }
    None
}

/// The version of a pak with the given text, or that it is not found
/// (`"{pak}@{version}"`).
pub fn select_pak_version(pak_id: u64, version: &str, versions: Vec<PakVersionRecord>) -> (r: Result<
    PakVersionRecord,
    ServerError,
>)
    ensures
        match last_version_at(versions_view(versions@), version@) {
            Some(i) => r matches Ok(x) && x@ == versions_view(versions@)[i],
            None => r matches Err(e) && e@ == (ServerErrorView::NotFound {
                what: decimal(pak_id as nat) + "@"@ + version@,
                detail: "None"@,
            }),
        },
{
    match pick_version(versions, version) {
        Some(v) => Ok(v),
        None => Err(
            ServerError::NotFound {
                what: decimal_text(pak_id).concat("@").concat(version),
                detail: String::from_str("None"),
            },
        ),
    }
}

/// The store layer's version lookup: a version text that is not a semantic
/// version is refused, else the last of the pak's versions with that text,
/// if any.
pub fn lookup_pak_version(version: &str, versions: Vec<PakVersionRecord>) -> (r: Result<
    Option<PakVersionRecord>,
    ServerError,
>)
    ensures
        semver_verdict(version@) is Some ==> (r matches Err(e) && e@ == ServerErrorView::Message(
            "Invalid Version Tag"@,
        )),
        semver_verdict(version@) is None ==> (r matches Ok(o) && match last_version_at(
            versions_view(versions@),
            version@,
        ) {
            None => o is None,
            Some(i) => o matches Some(x) && x@ == versions_view(versions@)[i],
        }),
{
    if semver_check(version).is_some() {
        return Err(ServerError::Message(String::from_str("Invalid Version Tag")));
    }
    Ok(pick_version(versions, version))
}

/// A pak that was looked up, or that it is not found (by its id).
pub fn pak_or_not_found(id: u64, pak: Option<PakRecord>) -> (r: Result<PakRecord, ServerError>)
    ensures
        (pak is Some) <==> (r is Ok),
        r matches Ok(p) ==> pak == Some(p),
        r matches Err(e) ==> e@ == (ServerErrorView::NotFound { what: decimal(id as nat), detail: "None"@ }),
{
    match pak {
        Some(p) => Ok(p),
        None => Err(ServerError::NotFound { what: decimal_text(id), detail: String::from_str("None") }),
    }
}

/// A pak the API looked up by its name, or that it is not found.
pub fn pak_found_by_name(pak: Option<PakRecord>) -> (r: Result<PakRecord, ApiError>)
    ensures
        (pak is Some) <==> (r is Ok),
        r matches Ok(p) ==> pak == Some(p),
        r matches Err(e) ==> e@ == ApiErrorView::NotFound("Pak Not Found"@),
{
    match pak {
        Some(p) => Ok(p),
        None => Err(ApiError::NotFound(String::from_str("Pak Not Found"))),
    }
}

/// Where the OAuth provider sends a user back: the server's host URL
/// followed by `/redirect`.
pub fn oauth_redirect_url(host_url: &str) -> (r: String)
    ensures
        r@ == host_url@ + "/redirect"@,
{
    String::from_str(host_url).concat("/redirect")
}

/// The scopes a login asks the OAuth provider for.
pub fn oauth_scopes() -> (r: Vec<String>)
    ensures
        r@.len() == 2,
        r@[0]@ == "public_read"@,
        r@[1]@ == "email_read"@,
{
    vec![String::from_str("public_read"), String::from_str("email_read")]
}

/// A pak whose versions were asked for, or that it does not exist
/// ("CoconutPak with ID {id} does not exist.").
pub fn pak_or_missing(id: u64, pak: Option<PakRecord>) -> (r: Result<PakRecord, ServerError>)
    ensures
        (pak is Some) <==> (r is Ok),
        r matches Ok(p) ==> pak == Some(p),
        r matches Err(e) ==> e@ == ServerErrorView::Message(
            "CoconutPak with ID "@ + decimal(id as nat) + " does not exist."@,
        ),
{
    match pak {
        Some(p) => Ok(p),
        None => Err(
            ServerError::Message(
                String::from_str("CoconutPak with ID ").concat(decimal_text(id).as_str()).concat(
                    " does not exist.",
                ),
            ),
        ),
    }
}

/// A version to be yanked, or that it does not exist ("CoconutPak with ID
/// {id} and version {version} does not exist.").
pub fn version_or_missing(id: u64, version: &str, found: Option<PakVersionRecord>) -> (r: Result<
    PakVersionRecord,
    ServerError,
>)
    ensures
        (found is Some) <==> (r is Ok),
        r matches Ok(v) ==> found matches Some(f) && v@ == f@,
        r matches Err(e) ==> e@ == ServerErrorView::Message(
            "CoconutPak with ID "@ + decimal(id as nat) + " and version "@ + version@ + " does not exist."@,
        ),
{
    match found {
        Some(v) => Ok(v),
        None => Err(
            ServerError::Message(
                String::from_str("CoconutPak with ID ").concat(decimal_text(id).as_str()).concat(
                    " and version ",
                ).concat(version).concat(" does not exist."),
            ),
        ),
    }
}

/// Whether a report is by the given reporter and for the given version,
/// where these are asked for.
pub open spec fn report_matches(r: ReportView, user_id: Option<u64>, version: Option<Seq<char>>) -> bool {
    &&& (user_id matches Some(u) ==> r.reporter == u)
    &&& (version matches Some(v) ==> r.version == v)
}

/// The reports that match, in their order.
pub open spec fn reports_kept(rs: Seq<ReportView>, user_id: Option<u64>, version: Option<Seq<char>>) -> Seq<
    ReportView,
>
    decreases rs.len(),
{
    if rs.len() == 0 {
        Seq::empty()
    } else if report_matches(rs.last(), user_id, version) {
        reports_kept(rs.drop_last(), user_id, version).push(rs.last())
    } else {
        reports_kept(rs.drop_last(), user_id, version)
    }
}

pub open spec fn text_option(o: Option<String>) -> Option<Seq<char>> {
    match o {
        Some(s) => Some(s@),
        None => None,
    }
}

/// A pak's reports, narrowed to a reporter and to a version when these
/// are given; a version that is not a semantic version is an error.
pub fn filter_reports(reports: Vec<ReportRecord>, user_id: Option<u64>, version: Option<String>) -> (r: Result<
    Vec<ReportRecord>,
    ServerError,
>)
    ensures
        (version matches Some(v) && semver_verdict(v@) is Some) ==> (r matches Err(e) && e@
            == ServerErrorView::Message("Invalid Version Tag"@)),
        !(version matches Some(v) && semver_verdict(v@) is Some) ==> (r matches Ok(kept)
            && reports_view(kept@) == reports_kept(reports_view(reports@), user_id, text_option(version))),
{
    match &version {
        Some(v) => {
            if semver_check(v.as_str()).is_some() {
                return Err(ServerError::Message(String::from_str("Invalid Version Tag")));
            }
        },
        None => {},
    }
    let ghost all = reports_view(reports@);
    let ghost vv = text_option(version);
    let mut kept: Vec<ReportRecord> = Vec::new();
    let mut k: usize = 0;
    while k < reports.len()
        invariant
            all == reports_view(reports@),
            vv == text_option(version),
            0 <= k <= reports@.len(),
            reports_view(kept@) == reports_kept(all.take(k as int), user_id, vv),
        decreases reports@.len() - k,
    {
        let rep = &reports[k];
        let by_user = match user_id {
            Some(u) => rep.reporter == u,
            None => true,
        };
        let by_version = match &version {
            Some(v) => rep.version == *v,
            None => true,
        };
        let ghost before = kept@;
        proof {
            assert(all.take(k + 1).drop_last() =~= all.take(k as int));
            assert(all.take(k + 1).last() == rep@);
        }
        if by_user && by_version {
            kept.push(copy_report(rep));
            proof {
                assert(reports_view(kept@) =~= reports_view(before).push(rep@));
            }
        }
        k = k + 1;
    }
    proof {
        assert(all.take(reports@.len() as int) =~= all);
    }
    Ok(kept)
}

/// Every report that filtering keeps matches the filter, and came from the
/// reports filtered.
pub proof fn lemma_kept_reports_match(rs: Seq<ReportView>, user_id: Option<u64>, version: Option<Seq<char>>)
    ensures
        forall|i: int| 0 <= i < reports_kept(rs, user_id, version).len() ==> report_matches(
            #[trigger] reports_kept(rs, user_id, version)[i],
            user_id,
            version,
        ) && rs.contains(reports_kept(rs, user_id, version)[i]),
        reports_kept(rs, user_id, version).len() <= rs.len(),
    decreases rs.len(),
{
    if rs.len() > 0 {
        let t = rs.drop_last();
        lemma_kept_reports_match(t, user_id, version);
        let kt = reports_kept(t, user_id, version);
        assert forall|i: int| 0 <= i < reports_kept(rs, user_id, version).len() implies report_matches(
            #[trigger] reports_kept(rs, user_id, version)[i],
            user_id,
            version,
        ) && rs.contains(reports_kept(rs, user_id, version)[i]) by {
            if i < kt.len() {
                assert(reports_kept(rs, user_id, version)[i] == kt[i]);
                let j = choose|j: int| 0 <= j < t.len() && t[j] == kt[i];
                assert(rs[j] == t[j]);
            } else {
                assert(reports_kept(rs, user_id, version)[i] == rs.last());
                assert(rs[rs.len() - 1] == rs.last());
            }
        }
    }
}

/// A new report by a user against a pak's version.
pub fn new_report(user_id: u64, target: &PakVersionRecord, version: String, reason: String, date: i64) -> (r:
    ReportRecord)
    ensures
        r@ == (ReportView {
            reporter: user_id,
            target_pak: target.coconutpak,
            date,
            reason: reason@,
            version: version@,
        }),
{
    ReportRecord { reporter: user_id, target_pak: target.coconutpak, date, reason, version }
}

/// A version with its yanked flag set as asked.
pub fn with_yanked(v: PakVersionRecord, yanked: bool) -> (r: PakVersionRecord)
    ensures
        r@ == (PakVersionView { yanked, ..v@ }),
{
    PakVersionRecord { yanked, ..v }
}

/// The prefix by which an API key announces itself.
pub const API_KEY_PREFIX_NO_DASH: &'static str = "A";

/// The prefix by which a session token announces itself.
pub const TOKEN_PREFIX_NO_DASH: &'static str = "S";

/// The two kinds of secret a caller can hold.
#[derive(Copy, Clone, Debug, PartialEq, Eq, Structural)]
pub enum SecretKind {
    ApiKey,
    Session,
}

/// The kind of secret its type text stands for: `A` an API key, `S` a
/// session token; any other is refused.
pub fn secret_kind(secret_type: &str) -> (r: Option<SecretKind>)
    ensures
        r == if secret_type@ == "A"@ {
            Some(SecretKind::ApiKey)
        } else if secret_type@ == "S"@ {
            Some(SecretKind::Session)
        } else {
            None::<SecretKind>
        },
{
    if crate::text::same_text(secret_type, "A") {
        Some(SecretKind::ApiKey)
    } else if crate::text::same_text(secret_type, "S") {
        Some(SecretKind::Session)
    } else {
        None
    }
}

/// How a secret is written: its nonce, kind and salt, dot-separated, then
/// its signature after a colon, the bytes in base64.
pub open spec fn secret_text_of(nonce: Seq<u8>, prefix: Seq<char>, salt: Seq<u8>, signed: Seq<u8>) -> Seq<char> {
    base64_text(nonce) + "."@ + prefix + "."@ + base64_text(salt) + ":"@ + base64_text(signed)
}

/// A secret written out for its holder.
pub fn secret_text(nonce: &[u8], prefix: &str, salt: &[u8], signed: &[u8]) -> (r: String)
    ensures
        r@ == secret_text_of(nonce@, prefix@, salt@, signed@),
{
    base64_encode(nonce).concat(".").concat(prefix).concat(".").concat(base64_encode(salt).as_str()).concat(
        ":",
    ).concat(base64_encode(signed).as_str())
}

/// A new API key written out.
pub fn api_key_text(nonce: &[u8], salt: &[u8], signed: &[u8]) -> (r: String)
    ensures
        r@ == secret_text_of(nonce@, "A"@, salt@, signed@),
{
    secret_text(nonce, API_KEY_PREFIX_NO_DASH, salt, signed)
}

/// A new session token written out.
pub fn session_token_text(nonce: &[u8], salt: &[u8], signed: &[u8]) -> (r: String)
    ensures
        r@ == secret_text_of(nonce@, "S"@, salt@, signed@),
{
    secret_text(nonce, TOKEN_PREFIX_NO_DASH, salt, signed)
}

/// How long a session lasts: 69 days, in milliseconds.
pub const SESSION_LIFETIME_MS: i64 = 5_961_600_000;

/// When a session made at `created` expires (both in milliseconds).
pub open spec fn expiry_of(created: int) -> int {
    created + SESSION_LIFETIME_MS
}

/// Whether a session that expires at `expire` is still accepted at `now`.
pub open spec fn is_live(expire: int, now: int) -> bool {
    now < expire
}

/// When a session made at `created` expires: 69 days later.
pub fn session_expiry(created: i64) -> (r: i64)
    requires
        created <= i64::MAX - SESSION_LIFETIME_MS,
    ensures
        r == expiry_of(created as int),
{
    created + SESSION_LIFETIME_MS
}

/// Whether a session that expires at `expire` is still accepted at `now`:
/// only before it expires.
pub fn session_is_live(expire: i64, now: i64) -> (r: bool)
    ensures
        r == is_live(expire as int, now as int),
{
    now < expire
}

/// A session is accepted exactly during the 69 days after it was made.
pub proof fn lemma_session_lives_its_lifetime(created: int, now: int)
    ensures
        is_live(expiry_of(created), now) <==> now - created < SESSION_LIFETIME_MS,
{
}

/// The cache key of a pak's id by its name.
pub fn pak_id_by_name_key(name: &str) -> (r: String)
    ensures
        r@ == "cpk:name2id:"@ + name@,
{
    String::from_str("cpk:name2id:").concat(name)
}

/// The cache key of a pak by its id.
pub fn pak_by_id_key(id: u64) -> (r: String)
    ensures
        r@ == "cpk:byid:"@ + decimal(id as nat),
{
    String::from_str("cpk:byid:").concat(decimal_text(id).as_str())
}

/// The cache key of a pak's versions.
pub fn pak_versions_key(id: u64) -> (r: String)
    ensures
        r@ == "cpk:vers:"@ + decimal(id as nat),
{
    String::from_str("cpk:vers:").concat(decimal_text(id).as_str())
}

/// The cache key under which the paks a user subscribes to are stored,
/// refreshed and invalidated.
pub fn user_subscriptions_key(user_id: u64) -> (r: String)
    ensures
        r@ == "cpk:uspk:"@ + decimal(user_id as nat),
{
    String::from_str("cpk:uspk:").concat(decimal_text(user_id).as_str())
}

/// The key under which the subscriptions of a user are read from the cache
/// (written without the colon that the key they are refreshed and stored
/// under has).
pub fn user_subscriptions_read_key(user_id: u64) -> (r: String)
    ensures
        r@ == "cpk:uspk"@ + decimal(user_id as nat),
{
    String::from_str("cpk:uspk").concat(decimal_text(user_id).as_str())
}

/// The cache key of the paks a user published.
pub fn user_published_key(user_id: u64) -> (r: String)
    ensures
        r@ == "cpk:uppk:"@ + decimal(user_id as nat),
{
    String::from_str("cpk:uppk:").concat(decimal_text(user_id).as_str())
}

/// The cache key under which the API keeps a pak by its name.
pub fn api_pak_by_name_key(name: &str) -> (r: String)
    ensures
        r@ == "coconutpak:paks:"@ + name@,
{
    String::from_str("coconutpak:paks:").concat(name)
}

/// How long a pak's versions stay in the cache, in seconds.
pub const VERSIONS_CACHE_SECONDS: usize = 60;

/// How long the paks a user subscribes to stay in the cache when they are
/// read from it, in seconds.
pub const SUBSCRIPTIONS_REFRESH_SECONDS: usize = 10;

/// How long the paks a user subscribes to stay in the cache when they are
/// stored in it, in seconds.
pub const SUBSCRIPTIONS_STORE_SECONDS: usize = 20;

/// How long the paks a user published stay in the cache, in seconds.
pub const PUBLISHED_CACHE_SECONDS: usize = 20;

/// How long the API keeps a pak found by its name in the cache, in seconds.
pub const API_PAK_CACHE_SECONDS: usize = 3600;

/// How long a cache entry lives, in seconds: 360 unless asked otherwise.
pub fn cache_timeout(timeout: Option<usize>) -> (r: usize)
    ensures
        r == match timeout {
            Some(t) => t,
            None => 360,
        },
{
    match timeout {
        Some(t) => t,
        None => 360,
    }
}

/// How many versions have the given text.
pub open spec fn versions_with(vs: Seq<PakVersionView>, v: Seq<char>) -> Seq<PakVersionView>
    decreases vs.len(),
{
    if vs.len() == 0 {
        Seq::empty()
    } else if vs.last().version == v {
        versions_with(vs.drop_last(), v).push(vs.last())
    } else {
        versions_with(vs.drop_last(), v)
    }
}

/// The versions with the given text, in their order.
pub fn matching_versions(versions: &Vec<PakVersionRecord>, version: &str) -> (r: Vec<PakVersionRecord>)
    ensures
        versions_view(r@) == versions_with(versions_view(versions@), version@),
{
    let ghost all = versions_view(versions@);
    let key = version.to_owned();
    let mut kept: Vec<PakVersionRecord> = Vec::new();
    let mut k: usize = 0;
    while k < versions.len()
        invariant
            key@ == version@,
            all == versions_view(versions@),
            0 <= k <= versions@.len(),
            versions_view(kept@) == versions_with(all.take(k as int), version@),
        decreases versions@.len() - k,
    {
        let ghost before = kept@;
        proof {
            assert(all.take(k + 1).drop_last() =~= all.take(k as int));
            assert(all.take(k + 1).last() == versions@[k as int]@);
        }
        if versions[k].version == key {
            kept.push(copy_version(&versions[k]));
            proof {
                assert(versions_view(kept@) =~= versions_view(before).push(versions@[k as int]@));
            }
        }
        k = k + 1;
    }
    proof {
        assert(all.take(versions@.len() as int) =~= all);
    }
    kept
}

/// What a yank request leads to: the one version to mark yanked, or why
/// not.  Only a caller who owns the pak and is an administrator may yank;
/// the version must parse; exactly one version may carry the text.
pub open spec fn yank_outcome(
    owner: u64,
    user: u64,
    admin: bool,
    version: Seq<char>,
    versions: Seq<PakVersionView>,
) -> Result<PakVersionView, ApiErrorView> {
    if owner != user || !admin {
        Err(ApiErrorView::Forbidden("You do not own this CoconutPak."@))
    } else {
        match semver_verdict(version) {
            Some(why) => Err(ApiErrorView::InternalServerError(why)),
            None => {
                let m = versions_with(versions, version);
                if m.len() == 0 {
                    Err(ApiErrorView::NotFound("CoconutPak Not Found."@))
                } else if m.len() == 1 {
                    Ok(PakVersionView { yanked: true, ..m[0] })
                } else {
                    Err(ApiErrorView::InternalServerError("Too many CoconutPaks!"@))
                }
            },
        }
    }
}

/// The API's yank decision for a pak's versions.
pub fn api_yank(pak: &PakRecord, user: &UserRecord, version: &str, versions: &Vec<PakVersionRecord>) -> (r: Result<
    PakVersionRecord,
    ApiError,
>)
    ensures
        match yank_outcome(pak.owner, user.uuid, user.administrator_account, version@, versions_view(versions@)) {
            Ok(v) => r matches Ok(x) && x@ == v,
            Err(e) => r matches Err(x) && x@ == e,
        },
{
    if pak.owner != user.uuid || !user.administrator_account {
        return Err(ApiError::Forbidden(String::from_str("You do not own this CoconutPak.")));
    }
    match semver_check(version) {
        Some(why) => {
            return Err(ApiError::InternalServerError(why));
        },
        None => {},
    }
    let m = matching_versions(versions, version);
    if m.len() == 0 {
        Err(ApiError::NotFound(String::from_str("CoconutPak Not Found.")))
    } else if m.len() == 1 {
        Ok(with_yanked(copy_version(&m[0]), true))
    } else {
        Err(ApiError::InternalServerError(String::from_str("Too many CoconutPaks!")))
    }
}

/// A version is yanked by a successful yank decision.
pub proof fn lemma_yank_marks_yanked(
    owner: u64,
    user: u64,
    admin: bool,
    version: Seq<char>,
    versions: Seq<PakVersionView>,
)
    ensures
        yank_outcome(owner, user, admin, version, versions) matches Ok(v) ==> v.yanked && v.version == version
            && owner == user && admin,
{
    lemma_versions_with_match(versions, version);
}

proof fn lemma_versions_with_match(vs: Seq<PakVersionView>, v: Seq<char>)
    ensures
        forall|i: int| 0 <= i < versions_with(vs, v).len() ==> (#[trigger] versions_with(vs, v)[i]).version == v,
    decreases vs.len(),
{
    if vs.len() > 0 {
        lemma_versions_with_match(vs.drop_last(), v);
        let t = versions_with(vs.drop_last(), v);
        assert forall|i: int| 0 <= i < versions_with(vs, v).len() implies (#[trigger] versions_with(vs, v)[i]).version == v by {
            if i < t.len() {
                assert(versions_with(vs, v)[i] == t[i]);
            }
        }
    }
}

/// Only administrators may list reports.
pub fn require_administrator(user: &UserRecord) -> (r: Result<(), ApiError>)
    ensures
        user.administrator_account <==> r is Ok,
        r matches Err(e) ==> e@ == ApiErrorView::Forbidden("You need to be an administrator to do that."@),
{
    if !user.administrator_account {
        Err(ApiError::Forbidden(String::from_str("You need to be an administrator to do that.")))
    } else {
        Ok(())
    }
}

/// The reports of a pak listed for a version: all of them for `*`, else
/// those for the version, which must parse.
pub fn reports_for_version(version: &str, reports: Vec<ReportRecord>) -> (r: Result<Vec<ReportRecord>, ApiError>)
    ensures
        version@ == "*"@ ==> (r matches Ok(x) && reports_view(x@) == reports_view(reports@)),
        version@ != "*"@ && semver_verdict(version@) is Some ==> (r matches Err(e) && e@
            == ApiErrorView::BadRequest(semver_verdict(version@)->0)),
        version@ != "*"@ && semver_verdict(version@) is None ==> (r matches Ok(x) && reports_view(x@)
            == reports_kept(reports_view(reports@), None, Some(version@))),
{
    if crate::text::same_text(version, "*") {
        return Ok(reports);
    }
    match semver_check(version) {
        Some(why) => Err(ApiError::BadRequest(why)),
        None => match filter_reports(reports, None, Some(version.to_owned())) {
            Ok(x) => Ok(x),
            Err(_) => {
                proof {
                    assert(false);
                }
                Err(ApiError::BadRequest(String::new()))
            },
        },
    }
}

/// Where a compiled pak is kept: the compile directory, then
/// `{name}/{version}/{name}.cpak`.
pub fn download_path(compile_dir: &str, name: &str, version: &str) -> (r: String)
    ensures
        r@ == compile_dir@ + name@ + "/"@ + version@ + "/"@ + name@ + ".cpak"@,
{
    String::from_str(compile_dir).concat(name).concat("/").concat(version).concat("/").concat(name).concat(
        ".cpak",
    )
}

/// Where a download of a pak's version is served from: the first version
/// with the text, unless it is yanked.
pub fn download_source(compile_dir: &str, name: &str, version: &str, versions: &Vec<PakVersionRecord>) -> (r: Result<
    String,
    ApiError,
>)
    ensures
        ({
            let m = versions_with(versions_view(versions@), version@);
            if m.len() > 0 && !m[0].yanked {
                r matches Ok(p) && p@ == compile_dir@ + name@ + "/"@ + version@ + "/"@ + name@ + ".cpak"@
            } else {
                r matches Err(e) && e@ == ApiErrorView::NotFound("Pak Not Found."@)
            }
        }),
{
    let m = matching_versions(versions, version);
    if m.len() > 0 && !m[0].yanked {
        Ok(download_path(compile_dir, name, version))
    } else {
        Err(ApiError::NotFound(String::from_str("Pak Not Found.")))
    }
}

/// What the API answers a download without a login.
pub fn download_without_login() -> (r: ApiError)
    ensures
        r@ == ApiErrorView::Forbidden("You need to be logged in to do that."@),
{
    ApiError::Forbidden(String::from_str("You need to be logged in to do that."))
}

/// What the API answers a request for a pak's sources.
pub fn source_not_offered() -> (r: ApiError)
    ensures
        r@ == ApiErrorView::NotImplemented("Sorry!"@),
{
    ApiError::NotImplemented(String::from_str("Sorry!"))
}

/// What the API answers a publish request.
pub fn publish_not_offered() -> (r: ApiError)
    ensures
        r@ == ApiErrorView::NotImplemented("lol"@),
{
    ApiError::NotImplemented(String::from_str("lol"))
}

/// The message of the day the API shows.
pub struct MessageOfTheDay {
    pub color: String,
    pub text: String,
    pub has_button: bool,
    pub button_label: Option<String>,
    pub button_link: Option<String>,
}

/// Today's message: "hi" in red, without a button.
pub fn motd() -> (r: MessageOfTheDay)
    ensures
        r.color@ == "red"@,
        r.text@ == "hi"@,
        !r.has_button,
        r.button_label is None,
        r.button_link is None,
{
    MessageOfTheDay {
        color: String::from_str("red"),
        text: String::from_str("hi"),
        has_button: false,
        button_label: None,
        button_link: None,
    }
}

} // verus!
