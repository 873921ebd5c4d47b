//! Driver descriptors and the candidate download links built from them.
use crate::text::{after_last, before_first, between, decimal, lemma_strings_view_push, push_decimal, strings_view};
use crate::xml::{contains_seq, XmlGpuEntry};
use vstd::prelude::*;

verus! {

/// Host that serves every driver package.
pub const BASE_LINK: &'static str = "https://international.download.nvidia.com";

/// Driver line: the general Game Ready line or the Studio line.
#[derive(Clone, Copy, Debug, Default, PartialEq, Eq, Structural)]
pub enum DriverChannels {
    #[default]
    GameReady,
    Studio,
}

/// Form factor the package is built for.
#[derive(Clone, Copy, Debug, Default, PartialEq, Eq, Structural)]
pub enum DriverPlatform {
    #[default]
    Desktop,
    /// Mobile GPUs.
    Notebook,
}

/// Packaging variant of a driver.
#[derive(Clone, Copy, Debug, Default, PartialEq, Eq, Structural)]
pub enum DriverEdition {
    /// Modern packaging (Declarative, Componentized, Hardware support app).
    #[default]
    DCH,
    /// Legacy standard packaging.
    STD,
}

/// Windows release a package targets.
#[derive(Clone, Copy, Debug, Default, PartialEq, Eq, Structural)]
pub enum DriverWindowsVersion {
    /// Packages that install on both Windows 10 and Windows 11.
    #[default]
    Win11,
    /// Packages that install on Windows 10 only.
    Win10,
}

/// The driver lookup service, which answers with the address of the page of the
/// newest matching driver.
pub const LOOKUP_LINK: &'static str = "https://www.nvidia.com/Download/processDriver.aspx";

/// A semantic description of a driver package.
#[derive(Clone, Debug)]
pub struct Driver {
    /// Version such as "516.59"; empty means "the latest", which is looked up elsewhere.
    pub version: String,
    pub channel: DriverChannels,
    pub platform: DriverPlatform,
    pub edition: DriverEdition,
    pub winver: DriverWindowsVersion,
}

/// Why no link could be produced or accepted.
#[derive(Clone, Copy, Debug, PartialEq, Eq, Structural)]
pub enum LinkError {
    /// The descriptor cannot be turned into links (its version is empty).
    InvalidCombination,
    /// A link could not be confirmed: the server answered with this
    /// non-success status, or (`None`) the request failed before any status.
    Unreachable(Option<u16>),
    /// None of the candidate links was reachable.
    NoValidLinks,
}

impl DriverChannels {
    /// What this value contributes to a package file name.
    pub open spec fn spec_token(self) -> Seq<char> {
        match self {
            DriverChannels::GameReady => ""@,
            DriverChannels::Studio => "-nsd"@,
        }
    }

    /// The fragment this channel contributes to a package file name.
    pub fn token(&self) -> (r: &'static str)
        ensures
            r@ == self.spec_token(),
    {
        match self {
            DriverChannels::GameReady => "",
            DriverChannels::Studio => "-nsd",
        }
    }

    /// This value's code in the driver lookup service.
    pub open spec fn spec_api(self) -> u8 {
        match self {
            DriverChannels::GameReady => 1,
            DriverChannels::Studio => 4,
        }
    }

    /// The `whql` code the driver lookup service uses for this channel.
    pub fn into_api(self) -> (r: u8)
        ensures
            r == self.spec_api(),
    {
        match self {
            DriverChannels::GameReady => 1,
            DriverChannels::Studio => 4,
        }
    }
}

impl DriverPlatform {
    /// What this value contributes to a package file name.
    pub open spec fn spec_token(self) -> Seq<char> {
        match self {
            DriverPlatform::Desktop => "desktop"@,
            DriverPlatform::Notebook => "notebook"@,
        }
    }

    /// The fragment this platform contributes to a package file name.
    pub fn token(&self) -> (r: &'static str)
        ensures
            r@ == self.spec_token(),
    {
        match self {
            DriverPlatform::Desktop => "desktop",
            DriverPlatform::Notebook => "notebook",
        }
    }
}

impl DriverEdition {
    /// What this value contributes to a package file name.
    pub open spec fn spec_token(self) -> Seq<char> {
        match self {
            DriverEdition::DCH => "-dch"@,
            DriverEdition::STD => ""@,
        }
    }

    /// The fragment this edition contributes to a package file name.
    pub fn token(&self) -> (r: &'static str)
        ensures
            r@ == self.spec_token(),
    {
        match self {
            DriverEdition::DCH => "-dch",
            DriverEdition::STD => "",
        }
    }

    /// This value's code in the driver lookup service.
    pub open spec fn spec_api(self) -> u8 {
        match self {
            DriverEdition::DCH => 1,
            DriverEdition::STD => 0,
        }
    }

    /// The `dtcid` code the driver lookup service uses for this edition.
    pub fn into_api(self) -> (r: u8)
        ensures
            r == self.spec_api(),
    {
        match self {
            DriverEdition::DCH => 1,
            DriverEdition::STD => 0,
        }
    }
}

impl DriverWindowsVersion {
    /// What this value contributes to a package file name.
    pub open spec fn spec_token(self) -> Seq<char> {
        match self {
            DriverWindowsVersion::Win10 => "-win10"@,
            DriverWindowsVersion::Win11 => "-win10-win11"@,
        }
    }

    /// The fragment this target contributes to a package file name.
    pub fn token(&self) -> (r: &'static str)
        ensures
            r@ == self.spec_token(),
    {
        match self {
            DriverWindowsVersion::Win10 => "-win10",
            DriverWindowsVersion::Win11 => "-win10-win11",
        }
    }

    /// The targets links are built for, in the order they are tried.
    pub open spec fn spec_all() -> Seq<DriverWindowsVersion> {
        seq![DriverWindowsVersion::Win10, DriverWindowsVersion::Win11]
    }

    /// Every Windows target, Windows 10 first.
    pub fn iter() -> (r: Vec<DriverWindowsVersion>)
        ensures
            r@ == Self::spec_all(),
    {
        let r = vec![DriverWindowsVersion::Win10, DriverWindowsVersion::Win11];
        assert(r@ =~= Self::spec_all());
        r
    }
}

/// The download link of the package described by these fields for one target.
pub open spec fn spec_link(
    version: Seq<char>,
    channel: DriverChannels,
    platform: DriverPlatform,
    edition: DriverEdition,
    target: DriverWindowsVersion,
) -> Seq<char> {
    BASE_LINK@ + "/Windows/"@ + version + "/"@ + version + "-"@ + platform.spec_token()
        + target.spec_token() + "-64bit-international"@ + channel.spec_token()
        + edition.spec_token() + "-whql.exe"@
}

/// The candidate links of a descriptor: one per Windows target, in target order.
pub open spec fn spec_links(d: &Driver) -> Seq<Seq<char>> {
    DriverWindowsVersion::spec_all().map_values(
        |t: DriverWindowsVersion| spec_link(d.version@, d.channel, d.platform, d.edition, t),
    )
}

/// Builds the link of `d`'s package for `target`.
fn link_for(d: &Driver, target: DriverWindowsVersion) -> (r: String)
    ensures
        r@ == spec_link(d.version@, d.channel, d.platform, d.edition, target),
{
    let mut link = String::from_str(BASE_LINK);
    link.append("/Windows/");
    link.append(d.version.as_str());
    link.append("/");
    link.append(d.version.as_str());
    link.append("-");
    link.append(d.platform.token());
    link.append(target.token());
    link.append("-64bit-international");
    link.append(d.channel.token());
    link.append(d.edition.token());
    link.append("-whql.exe");
    link
}

/// Resolves a descriptor into its candidate download links, one per Windows
/// target (Windows 10 first). Nothing is fetched: the links still have to be
/// validated.
pub fn new_link(driver: &Driver) -> (r: Result<Vec<String>, LinkError>)
    ensures
        r is Err <==> driver.version@.len() == 0,
        r is Err ==> r == Err::<Vec<String>, LinkError>(LinkError::InvalidCombination),
        r is Ok ==> strings_view(r->Ok_0@) == spec_links(driver),
{
    if driver.version.as_str().is_empty() {
        return Err(LinkError::InvalidCombination);
    }
    let targets = DriverWindowsVersion::iter();
    let mut links: Vec<String> = Vec::new();
    let mut i: usize = 0;
    while i < targets.len()
        invariant
            targets@ == DriverWindowsVersion::spec_all(),
            i <= targets@.len(),
            strings_view(links@) == spec_links(driver).subrange(0, i as int),
        decreases targets@.len() - i,
    {
        let link = link_for(driver, targets[i]);
        let ghost before = links@;
        links.push(link);
        proof {
            lemma_strings_view_push(before, link);
        }
        assert(strings_view(links@) =~= spec_links(driver).subrange(0, i + 1));
        i = i + 1;
    }
    assert(spec_links(driver).subrange(0, i as int) =~= spec_links(driver));
    Ok(links)
}

/// The lookup address for the newest driver of `gpu` on the given line and
/// packaging, for 64-bit Windows 10/11 in English.
pub open spec fn spec_lookup_link(
    gpu: XmlGpuEntry,
    channel: DriverChannels,
    edition: DriverEdition,
) -> Seq<char> {
    LOOKUP_LINK@ + "?psid="@ + decimal(gpu.series as nat) + "&pfid="@ + decimal(gpu.id as nat)
        + "&osid=57&lid=1&whql="@ + decimal(channel.spec_api() as nat) + "&dtcid="@ + decimal(
        edition.spec_api() as nat,
    )
}

/// Builds the lookup address for the newest driver of `gpu` matching the
/// channel and edition of `driver`.
pub fn lookup_link(gpu: &XmlGpuEntry, driver: &Driver) -> (r: String)
    ensures
        r@ == spec_lookup_link(*gpu, driver.channel, driver.edition),
{
    let mut link = String::from_str(LOOKUP_LINK);
    link.append("?psid=");
    push_decimal(&mut link, gpu.series);
    link.append("&pfid=");
    push_decimal(&mut link, gpu.id);
    link.append("&osid=57&lid=1&whql=");
    push_decimal(&mut link, driver.channel.into_api() as u16);
    link.append("&dtcid=");
    push_decimal(&mut link, driver.edition.into_api() as u16);
    link
}

/// The download link a driver page points to: the path after its last
/// `?url=`, up to the next `&`, on the download host.
pub fn download_link_from_page(page: &str) -> (r: String)
    ensures
        r@ == BASE_LINK@ + before_first(after_last(page@, "?url="@), '&'),
{
    let path = between(page, "?url=", '&');
    let mut link = String::from_str(BASE_LINK);
    link.append(path.as_str());
    link
}

/// The verdict on one link, from the HTTP status its server answered with:
/// reachable exactly on a success status (200 to 299).
pub fn check_status(status: u16) -> (r: Result<(), LinkError>)
    ensures
        200 <= status <= 299 ==> r is Ok,
        !(200 <= status <= 299) ==> r == Err::<(), LinkError>(LinkError::Unreachable(Some(status))),
{
    if 200 <= status && status <= 299 {
        Ok(())
    } else {
        Err(LinkError::Unreachable(Some(status)))
    }
}

/// The test a checked candidate link must pass to be kept.
pub open spec fn passed() -> spec_fn((String, Result<(), LinkError>)) -> bool {
    |c: (String, Result<(), LinkError>)| c.1 is Ok
}

/// The link of a checked candidate.
pub open spec fn link_text() -> spec_fn((String, Result<(), LinkError>)) -> Seq<char> {
    |c: (String, Result<(), LinkError>)| c.0@
}

/// The links whose check passed, in candidate order.
pub open spec fn spec_valid_links(checked: Seq<(String, Result<(), LinkError>)>) -> Seq<Seq<char>> {
    checked.filter(passed()).map_values(link_text())
}

/// Keeps the candidate links whose check passed, in their order; fails with
/// `NoValidLinks` when none did.
pub fn keep_valid(checked: &Vec<(String, Result<(), LinkError>)>) -> (r: Result<
    Vec<String>,
    LinkError,
>)
    ensures
        r is Err <==> spec_valid_links(checked@).len() == 0,
        r is Err ==> r == Err::<Vec<String>, LinkError>(LinkError::NoValidLinks),
        r is Ok ==> strings_view(r->Ok_0@) == spec_valid_links(checked@),
{
    let mut valid: Vec<String> = Vec::new();
    let mut i: usize = 0;
    while i < checked.len()
        invariant
            i <= checked@.len(),
            strings_view(valid@) == checked@.subrange(0, i as int).filter(passed()).map_values(link_text()),
        decreases checked@.len() - i,
    {
        let ghost prev = checked@.subrange(0, i as int);
        proof {
            assert(checked@.subrange(0, i + 1) =~= prev.push(checked@[i as int]));
            prev.lemma_filter_push(checked@[i as int], passed());
        }
        if checked[i].1.is_ok() {
            let ghost before = valid@;
            let link = checked[i].0.clone();
            valid.push(link);
            proof {
                lemma_strings_view_push(before, link);
            }
            assert(strings_view(valid@) =~= prev.filter(passed()).push(checked@[i as int]).map_values(
                link_text(),
            ));
        }
        i = i + 1;
    }
    assert(checked@.subrange(0, i as int) =~= checked@);
    if valid.len() == 0 {
        return Err(LinkError::NoValidLinks);
    }
    Ok(valid)
}

/// Everything in a link that comes before the target token.
pub open spec fn link_stem(version: Seq<char>, platform: DriverPlatform) -> Seq<char> {
    BASE_LINK@ + "/Windows/"@ + version + "/"@ + version + "-"@ + platform.spec_token()
}

/// Everything in a link that comes after the target token.
pub open spec fn link_tail(channel: DriverChannels, edition: DriverEdition) -> Seq<char> {
    "-64bit-international"@ + channel.spec_token() + edition.spec_token() + "-whql.exe"@
}

/// A descriptor with a version resolves to exactly two links. They agree
/// everywhere but in the target token: the first carries exactly `-win10`, the
/// second exactly `-win10-win11`, between the same stem and the same tail.
pub proof fn lemma_two_targets(d: &Driver)
    requires
        d.version@.len() > 0,
    ensures
        spec_links(d).len() == 2,
        spec_links(d)[0] == link_stem(d.version@, d.platform) + "-win10"@ + link_tail(
            d.channel,
            d.edition,
        ),
        spec_links(d)[1] == link_stem(d.version@, d.platform) + "-win10-win11"@ + link_tail(
            d.channel,
            d.edition,
        ),
{
    let v = d.version@;
    assert(spec_links(d)[0] =~= link_stem(v, d.platform) + "-win10"@ + link_tail(d.channel, d.edition));
    assert(spec_links(d)[1] =~= link_stem(v, d.platform) + "-win10-win11"@ + link_tail(d.channel, d.edition));
}

/// The part of a link that follows the stem shared by every link of a version.
pub open spec fn link_fields(
    channel: DriverChannels,
    platform: DriverPlatform,
    edition: DriverEdition,
    target: DriverWindowsVersion,
) -> Seq<char> {
    platform.spec_token() + target.spec_token() + "-64bit-international"@ + channel.spec_token()
        + edition.spec_token() + "-whql.exe"@
}

/// The tokens follow the version stem in a fixed order, each taken from its
/// own field alone: platform, target, architecture and locale, channel,
/// edition, certification suffix.
pub proof fn lemma_link_split(
    version: Seq<char>,
    channel: DriverChannels,
    platform: DriverPlatform,
    edition: DriverEdition,
    target: DriverWindowsVersion,
)
    ensures
        spec_link(version, channel, platform, edition, target) == (BASE_LINK@ + "/Windows/"@
            + version + "/"@ + version + "-"@) + link_fields(channel, platform, edition, target),
{
    assert(spec_link(version, channel, platform, edition, target) =~= (BASE_LINK@ + "/Windows/"@
        + version + "/"@ + version + "-"@) + link_fields(channel, platform, edition, target));
}

/// Token table round trip: for one version, a link determines the platform,
/// target, channel and edition it was built from. Each field's token sits at a
/// fixed place in the link, and the two values of each field put different text
/// there.
pub proof fn lemma_link_determines_fields(
    version: Seq<char>,
    c1: DriverChannels,
    p1: DriverPlatform,
    e1: DriverEdition,
    t1: DriverWindowsVersion,
    c2: DriverChannels,
    p2: DriverPlatform,
    e2: DriverEdition,
    t2: DriverWindowsVersion,
)
    requires
        spec_link(version, c1, p1, e1, t1) == spec_link(version, c2, p2, e2, t2),
    ensures
        c1 == c2,
        p1 == p2,
        e1 == e2,
        t1 == t2,
{
    reveal_strlit("desktop");
    reveal_strlit("notebook");
    reveal_strlit("-win10");
    reveal_strlit("-win10-win11");
    reveal_strlit("-64bit-international");
    reveal_strlit("");
    reveal_strlit("-nsd");
    reveal_strlit("-dch");
    reveal_strlit("-whql.exe");
    let pre = BASE_LINK@ + "/Windows/"@ + version + "/"@ + version + "-"@;
    let r1 = link_fields(c1, p1, e1, t1);
    let r2 = link_fields(c2, p2, e2, t2);
    lemma_link_split(version, c1, p1, e1, t1);
    lemma_link_split(version, c2, p2, e2, t2);
    assert(r1 =~= (pre + r1).subrange(pre.len() as int, (pre + r1).len() as int));
    assert(r2 =~= (pre + r2).subrange(pre.len() as int, (pre + r2).len() as int));
    assert(r1 == r2);
    assert(r1[0] == p1.spec_token()[0]);
    assert(r2[0] == p2.spec_token()[0]);
    assert(p1 == p2);
    let k = p1.spec_token().len() as int;
    assert(r1[k + 7] == (if t1 == DriverWindowsVersion::Win11 { 'w' } else { '6' }));
    assert(r2[k + 7] == (if t2 == DriverWindowsVersion::Win11 { 'w' } else { '6' }));
    assert(t1 == t2);
    let n = r1.len() as int;
    assert(r1[n - 10] == (if e1 == DriverEdition::DCH {
        'h'
    } else if c1 == DriverChannels::Studio {
        'd'
    } else {
        'l'
    }));
    assert(r2[n - 10] == (if e2 == DriverEdition::DCH {
        'h'
    } else if c2 == DriverChannels::Studio {
        'd'
    } else {
        'l'
    }));
    assert(e1 == e2);
    if e1 == DriverEdition::DCH {
        assert(r1[n - 14] == (if c1 == DriverChannels::Studio { 'd' } else { 'l' }));
        assert(r2[n - 14] == (if c2 == DriverChannels::Studio { 'd' } else { 'l' }));
    }
}

/// The first link carries the Windows 10 target and not the combined one, and
/// the second carries the combined one, each right before the architecture
/// suffix. (A version that itself contains `-win10` is left out: with the
/// version `1-win10-win11` the first link contains `-win10-win11` too.)
pub proof fn lemma_target_tokens(d: &Driver)
    requires
        d.version@.len() > 0,
        !contains_seq(d.version@, "-win10"@),
    ensures
        contains_seq(spec_links(d)[0], "-win10-64bit"@),
        !contains_seq(spec_links(d)[0], "-win10-win11"@),
        contains_seq(spec_links(d)[1], "-win10-win11-64bit"@),
{
    reveal_strlit("https://international.download.nvidia.com");
    reveal_strlit("/Windows/");
    reveal_strlit("/");
    reveal_strlit("-");
    reveal_strlit("desktop");
    reveal_strlit("notebook");
    reveal_strlit("-win10");
    reveal_strlit("-win10-win11");
    reveal_strlit("-64bit-international");
    reveal_strlit("");
    reveal_strlit("-nsd");
    reveal_strlit("-dch");
    reveal_strlit("-whql.exe");
    reveal_strlit("-win10-64bit");
    reveal_strlit("-win10-win11-64bit");
    lemma_two_targets(d);
    let v = d.version@;
    let c = BASE_LINK@ + "/Windows/"@;
    let r0 = "-"@ + d.platform.spec_token() + "-win10"@ + link_tail(d.channel, d.edition);
    let r1 = "-"@ + d.platform.spec_token() + "-win10-win11"@ + link_tail(d.channel, d.edition);
    let s0 = spec_links(d)[0];
    let s1 = spec_links(d)[1];
    assert(s0 =~= c + v + "/"@ + v + r0);
    assert(s1 =~= c + v + "/"@ + v + r1);
    let c4 = (c.len() + v.len() + 1 + v.len()) as int;
    let pl = d.platform.spec_token().len() as int;
    assert(s0.subrange(c4 + 1 + pl, c4 + 1 + pl + 12) =~= "-win10-64bit"@);
    assert(s1.subrange(c4 + 1 + pl, c4 + 1 + pl + 18) =~= "-win10-win11-64bit"@);
    let p = "-win10-win11"@;
    let w = "-win10"@;
    assert forall|i: int| 0 <= i && i + p.len() <= s0.len() implies #[trigger] s0.subrange(i, i + p.len()) != p by {
        if s0.subrange(i, i + p.len()) == p {
            let c1 = c.len() as int;
            let c2 = c1 + v.len();
            let c3 = c2 + 1;
            assert(s0[i] == p[0]);
            if i < c1 {
                assert(s0[i] == c[i]);
            } else if i <= c2 {
                if i + 12 <= c2 {
                    assert forall|k: int| 0 <= k < 6 implies v.subrange(i - c1, i - c1 + 6)[k] == w[k] by {
                        assert(s0.subrange(i, i + p.len())[k] == p[k]);
                        assert(s0[i + k] == v[i - c1 + k]);
                    }
                    assert(v.subrange(i - c1, i - c1 + 6) =~= w);
                } else {
                    assert(s0[c2] == p[c2 - i]);
                }
            } else if i < c4 {
                if i + 6 <= c4 {
                    assert forall|k: int| 0 <= k < 6 implies v.subrange(i - c3, i - c3 + 6)[k] == w[k] by {
                        assert(s0.subrange(i, i + p.len())[k] == p[k]);
                        assert(s0[i + k] == v[i - c3 + k]);
                    }
                    assert(v.subrange(i - c3, i - c3 + 6) =~= w);
                } else {
                    assert(s0[c4] == p[c4 - i]);
                    assert(s0[c4] == r0[0]);
                }
            } else {
                let j = i - c4;
                assert(r0.subrange(j, j + 12) =~= p);
                assert(r0.subrange(j, j + 12)[0] == p[0]);
                assert(r0.subrange(j, j + 12)[1] == p[1]);
                assert(r0.subrange(j, j + 12)[7] == p[7]);
                assert(r0[j] == '-');
                assert(r0[j + 1] == 'w');
                assert(r0[j + 7] == 'w');
            }
        }
    }
}

/// A token without `/`, and with no `-` after its first character, that occurs
/// neither in `c`, nor in `v`, nor in `r`, where `c` ends with `/` and `r`
/// starts with `-`, does not occur in `c + v + "/" + v + r` either.
proof fn lemma_token_absent(c: Seq<char>, v: Seq<char>, r: Seq<char>, tok: Seq<char>)
    requires
        c.len() > 0,
        c.last() == '/',
        r.len() > 0,
        r[0] == '-',
        tok.len() > 0,
        forall|k: int| 0 <= k < tok.len() ==> tok[k] != '/',
        forall|k: int| 1 <= k < tok.len() ==> tok[k] != '-',
        !contains_seq(c, tok),
        !contains_seq(v, tok),
        !contains_seq(r, tok),
    ensures
        !contains_seq(c + v + seq!['/'] + v + r, tok),
{
    let s = c + v + seq!['/'] + v + r;
    let n = tok.len() as int;
    let c1 = c.len() as int;
    let c2 = c1 + v.len();
    let c3 = c2 + 1;
    let c4 = c3 + v.len();
    assert forall|i: int| 0 <= i && i + n <= s.len() implies #[trigger] s.subrange(i, i + n) != tok by {
        if s.subrange(i, i + n) == tok {
            assert forall|k: int| 0 <= k < n implies s[i + k] == tok[k] by {
                assert(s.subrange(i, i + n)[k] == tok[k]);
            }
            if i + n <= c1 {
                assert(c.subrange(i, i + n) =~= tok);
            } else if i < c1 {
                assert(s[c1 - 1] == '/');
                assert(tok[c1 - 1 - i] == '/');
            } else if i + n <= c2 {
                assert(v.subrange(i - c1, i - c1 + n) =~= tok);
            } else if i <= c2 {
                assert(s[c2] == '/');
                assert(tok[c2 - i] == '/');
            } else if i + n <= c4 {
                assert(v.subrange(i - c3, i - c3 + n) =~= tok);
            } else if i < c4 {
                assert(s[c4] == '-');
                assert(tok[c4 - i] == '-');
            } else {
                assert(r.subrange(i - c4, i - c4 + n) =~= tok);
            }
        }
    }
}


/// No three consecutive characters of `s` from `i` on read `a b c`, hence `tok`
/// (which starts that way) does not occur in `s`.
proof fn lemma_absent_by_prefix(s: Seq<char>, tok: Seq<char>)
    requires
        tok.len() >= 3,
        forall|i: int| 0 <= i && i + 3 <= s.len() ==> !(#[trigger] s[i] == tok[0] && s[i + 1] == tok[1] && s[i + 2] == tok[2]),
    ensures
        !contains_seq(s, tok),
{
    assert forall|i: int| 0 <= i && i + tok.len() <= s.len() implies #[trigger] s.subrange(i, i + tok.len()) != tok by {
        if s.subrange(i, i + tok.len()) == tok {
            assert(s.subrange(i, i + tok.len())[0] == tok[0]);
            assert(s.subrange(i, i + tok.len())[1] == tok[1]);
            assert(s.subrange(i, i + tok.len())[2] == tok[2]);
        }
    }
}

/// What follows the version's second copy in a link.
spec fn link_rest(p: DriverPlatform, t: DriverWindowsVersion, ch: DriverChannels, e: DriverEdition) -> Seq<char> {
    "-"@ + p.spec_token() + t.spec_token() + link_tail(ch, e)
}

/// None of the field tokens occurs in the host and folder part of a link.
proof fn lemma_stem_lacks(tok: Seq<char>)
    requires
        tok == "desktop"@ || tok == "notebook"@ || tok == "-nsd"@ || tok == "-dch"@,
    ensures
        !contains_seq(BASE_LINK@ + "/Windows/"@, tok),
{
    reveal_strlit("https://international.download.nvidia.com");
    reveal_strlit("/Windows/");
    reveal_strlit("desktop");
    reveal_strlit("notebook");
    reveal_strlit("-nsd");
    reveal_strlit("-dch");
    lemma_absent_by_prefix(BASE_LINK@ + "/Windows/"@, tok);
}

/// The part after the version lacks the tokens of the values not chosen.
proof fn lemma_rest_lacks(p: DriverPlatform, t: DriverWindowsVersion, ch: DriverChannels, e: DriverEdition, tok: Seq<char>)
    requires
        (tok == "desktop"@ && p == DriverPlatform::Notebook) || (tok == "notebook"@ && p == DriverPlatform::Desktop)
            || (tok == "-nsd"@ && ch == DriverChannels::GameReady) || (tok == "-dch"@ && e == DriverEdition::STD),
    ensures
        !contains_seq(link_rest(p, t, ch, e), tok),
{
    reveal_strlit("-");
    reveal_strlit("desktop");
    reveal_strlit("notebook");
    reveal_strlit("-win10");
    reveal_strlit("-win10-win11");
    reveal_strlit("-64bit-international");
    reveal_strlit("");
    reveal_strlit("-nsd");
    reveal_strlit("-dch");
    reveal_strlit("-whql.exe");
    lemma_absent_by_prefix(link_rest(p, t, ch, e), tok);
}

/// Each link carries the token of its platform and not the other platform's,
/// carries `-nsd` exactly for the Studio channel and `-dch` exactly for the DCH
/// edition, so the fields can be read back off either link. (A version that
/// itself contains one of these tokens is left out: with the version
/// `1-dch` a standard package's link contains `-dch` too.)
pub proof fn lemma_field_tokens(d: &Driver, k: int)
    requires
        0 <= k < 2,
        d.version@.len() > 0,
        !contains_seq(d.version@, "desktop"@),
        !contains_seq(d.version@, "notebook"@),
        !contains_seq(d.version@, "-nsd"@),
        !contains_seq(d.version@, "-dch"@),
    ensures
        contains_seq(spec_links(d)[k], "desktop"@) == (d.platform == DriverPlatform::Desktop),
        contains_seq(spec_links(d)[k], "notebook"@) == (d.platform == DriverPlatform::Notebook),
        contains_seq(spec_links(d)[k], "-nsd"@) == (d.channel == DriverChannels::Studio),
        contains_seq(spec_links(d)[k], "-dch"@) == (d.edition == DriverEdition::DCH),
{
    reveal_strlit("https://international.download.nvidia.com");
    reveal_strlit("/Windows/");
    reveal_strlit("/");
    reveal_strlit("-");
    reveal_strlit("desktop");
    reveal_strlit("notebook");
    reveal_strlit("-win10");
    reveal_strlit("-win10-win11");
    reveal_strlit("-64bit-international");
    reveal_strlit("");
    reveal_strlit("-nsd");
    reveal_strlit("-dch");
    reveal_strlit("-whql.exe");
    lemma_two_targets(d);
    let v = d.version@;
    let t = if k == 0 { DriverWindowsVersion::Win10 } else { DriverWindowsVersion::Win11 };
    let c = BASE_LINK@ + "/Windows/"@;
    let pt = d.platform.spec_token();
    let r = link_rest(d.platform, t, d.channel, d.edition);
    let s = spec_links(d)[k];
    assert(s =~= c + v + seq!['/'] + v + r);
    let c4 = (c.len() + v.len() + 1 + v.len()) as int;
    let m = 1 + pt.len() + t.spec_token().len() + 20;
    let ct = d.channel.spec_token();
    // present tokens
    if d.platform == DriverPlatform::Desktop {
        assert(s.subrange(c4 + 1, c4 + 8) =~= "desktop"@);
    } else {
        assert(s.subrange(c4 + 1, c4 + 9) =~= "notebook"@);
    }
    if d.channel == DriverChannels::Studio {
        assert(s.subrange(c4 + m, c4 + m + 4) =~= "-nsd"@);
    }
    if d.edition == DriverEdition::DCH {
        assert(s.subrange(c4 + m + ct.len(), c4 + m + ct.len() + 4) =~= "-dch"@);
    }
    // absent tokens
    if d.platform == DriverPlatform::Desktop {
        let tok = "notebook"@;
        lemma_stem_lacks(tok);
        lemma_rest_lacks(d.platform, t, d.channel, d.edition, tok);
        lemma_token_absent(c, v, r, tok);
    } else {
        let tok = "desktop"@;
        lemma_stem_lacks(tok);
        lemma_rest_lacks(d.platform, t, d.channel, d.edition, tok);
        lemma_token_absent(c, v, r, tok);
    }
    if d.channel == DriverChannels::GameReady {
        let tok = "-nsd"@;
        lemma_stem_lacks(tok);
        lemma_rest_lacks(d.platform, t, d.channel, d.edition, tok);
        lemma_token_absent(c, v, r, tok);
    }
    if d.edition == DriverEdition::STD {
        let tok = "-dch"@;
        lemma_stem_lacks(tok);
        lemma_rest_lacks(d.platform, t, d.channel, d.edition, tok);
        lemma_token_absent(c, v, r, tok);
    }
}

} // verus!
