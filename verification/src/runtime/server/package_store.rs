//! The store of published packages: what may be saved, and what is brought back from it.
use vstd::prelude::*;

use crate::runtime::model::{MarketplaceEntry, PluginRuntime};
use crate::runtime::server::manifest::CapabilityManifest;
use crate::runtime::server::publication_validation;
use crate::runtime::server::publication_validation::MarketplaceMetadata;
use crate::text;

verus! {

/// How many packages are stored where the host sets no other limit.
pub const DEFAULT_MAX_PACKAGES: i64 = 1024;

/// How many bytes of packages are stored where the host sets no other limit.
pub const DEFAULT_MAX_BYTES: i64 = 2147483648;

// Revisions

/// The digits of a package's revision.
pub open spec fn revision_digit(c: char) -> bool {
    ('0' <= c && c <= '9') || ('a' <= c && c <= 'f')
}

/// Whether a text is the revision of a package: a SHA-256 digest in lower-case hexadecimal
/// notation.
pub open spec fn package_revision(revision: Seq<char>) -> bool {
    revision.len() == 64 && forall|i: int|
        0 <= i < revision.len() ==> revision_digit(#[trigger] revision[i])
}

/// Whether a text is the revision of a package.
pub fn is_package_revision(revision: &str) -> (yes: bool)
    ensures
        yes == package_revision(revision@),
{
    let chars = text::chars_of(revision);
    if chars.len() != 64 {
        return false;
    }
    let mut i: usize = 0;
    while i < chars.len()
        invariant
            i <= chars@.len(),
            chars@ == revision@,
            forall|k: int| 0 <= k < i ==> revision_digit(#[trigger] chars@[k]),
        decreases chars@.len() - i,
    {
        let c = chars[i];
        if !(('0' <= c && c <= '9') || ('a' <= c && c <= 'f')) {
            assert(!revision_digit(revision@[i as int]));
            return false;
        }
        i += 1;
    }
    true
}

/// Requires that a text is the revision of a package.
pub fn require_package_revision(revision: &str) -> (outcome: Result<(), String>)
    ensures
        outcome is Ok <==> package_revision(revision@),
        outcome matches Err(told) ==> told@ == "插件包版本必须是完整 SHA-256"@,
{
    if is_package_revision(revision) {
        Ok(())
    } else {
        Err("插件包版本必须是完整 SHA-256".to_owned())
    }
}

/// The entry of a stored package that passed its publication.
pub fn published_package_entry(
    git: &str,
    revision: &str,
    metadata: Option<MarketplaceMetadata>,
    runtime: Option<PluginRuntime>,
    capabilities: CapabilityManifest,
) -> (outcome: Result<MarketplaceEntry, String>)
    ensures
        outcome is Ok <==> metadata is Some,
        match outcome {
            Ok(entry) => publication_validation::presents(
                entry,
                git@,
                revision@,
                metadata->0,
                runtime,
                capabilities,
            ),
            Err(told) => told@ == "已发布插件包缺少市场元数据"@,
        },
{
    match metadata {
        Some(metadata) => Ok(
            publication_validation::offer(git, revision, metadata, runtime, capabilities),
        ),
        None => Err("已发布插件包缺少市场元数据".to_owned()),
    }
}

// Quotas

/// Whether a text is one or more decimal digits.
pub open spec fn all_digits(digits: Seq<char>) -> bool {
    digits.len() > 0 && forall|i: int|
        0 <= i < digits.len() ==> '0' <= #[trigger] digits[i] && digits[i] <= '9'
}

/// The digits of a text that may begin with a plus sign.
pub open spec fn unsigned_digits(value: Seq<char>) -> Seq<char> {
    if value.len() > 0 && value[0] == '+' {
        value.skip(1)
    } else {
        value
    }
}

/// The positive 64-bit number that a text denotes in decimal notation, where it denotes one.
pub open spec fn positive_number(value: Seq<char>) -> Option<i64> {
    let digits = unsigned_digits(value);
    if all_digits(digits) && 0 < text::number(digits) <= i64::MAX {
        Some(text::number(digits) as i64)
    } else {
        None
    }
}

proof fn lemma_number_grows(digits: Seq<char>, count: int)
    requires
        all_digits(digits),
        0 <= count <= digits.len(),
    ensures
        0 <= text::number(digits.take(count)) <= text::number(digits),
    decreases digits.len() - count,
{
    lemma_number_natural(digits.take(count), digits);
    if count < digits.len() {
        lemma_number_grows(digits, count + 1);
        assert(digits.take(count + 1).drop_last() =~= digits.take(count));
        assert(digits.take(count + 1).last() == digits[count]);
    } else {
        assert(digits.take(count) =~= digits);
    }
}

proof fn lemma_number_natural(part: Seq<char>, digits: Seq<char>)
    requires
        all_digits(digits),
        part.len() <= digits.len(),
        part == digits.take(part.len() as int),
    ensures
        text::number(part) >= 0,
    decreases part.len(),
{
    if part.len() > 0 {
        assert(part.drop_last() =~= digits.take(part.len() - 1));
        lemma_number_natural(part.drop_last(), digits);
        assert(part.last() == digits[part.len() - 1]);
    }
}

/// Reads a positive 64-bit number in decimal notation.
pub fn parse_positive(value: &str) -> (parsed: Option<i64>)
    ensures
        parsed == positive_number(value@),
{
    let chars = text::chars_of(value);
    let from: usize = if chars.len() > 0 && chars[0] == '+' {
        1
    } else {
        0
    };
    let ghost digits = unsigned_digits(value@);
    assert(digits =~= chars@.skip(from as int));
    if chars.len() == from {
        return None;
    }
    let mut c: usize = from;
    while c < chars.len()
        invariant
            from <= c <= chars@.len(),
            digits == chars@.skip(from as int),
            digits == unsigned_digits(value@),
            forall|k: int| 0 <= k < c - from ==> '0' <= #[trigger] digits[k] && digits[k] <= '9',
        decreases chars@.len() - c,
    {
        assert(digits[c - from] == chars@[c as int]);
        if chars[c] < '0' || '9' < chars[c] {
            return None;
        }
        c += 1;
    }
    assert(all_digits(digits));
    let mut total: i64 = 0;
    let mut i: usize = from;
    assert(digits.take(0) =~= Seq::<char>::empty());
    while i < chars.len()
        invariant
            from <= i <= chars@.len(),
            digits == chars@.skip(from as int),
            digits == unsigned_digits(value@),
            all_digits(digits),
            0 <= total,
            total == text::number(digits.take(i - from)),
        decreases chars@.len() - i,
    {
        assert(digits[i - from] == chars@[i as int]);
        let digit: i64 = (chars[i] as u32 - 48) as i64;
        proof {
            assert(digits.take(i - from + 1).drop_last() =~= digits.take(i - from));
            lemma_number_grows(digits, i - from + 1);
        }
        if total > (i64::MAX - digit) / 10 {
            return None;
        }
        total = total * 10 + digit;
        i += 1;
    }
    assert(digits.take(i - from) =~= digits);
    if total > 0 {
        Some(total)
    } else {
        None
    }
}

/// A limit that the host may set: the number it configures where this is a positive one, and
/// otherwise the default.
pub fn quota(configured: Option<&str>, default: i64) -> (limit: i64)
    ensures
        limit == match configured {
            Some(value) => match positive_number(value@) {
                Some(number) => number,
                None => default,
            },
            None => default,
        },
{
    match configured {
        Some(value) => match parse_positive(value) {
            Some(number) => number,
            None => default,
        },
        None => default,
    }
}

// Saving

/// What is to be done with a package.
#[derive(Clone, Copy, Debug, PartialEq, Eq, Structural)]
pub enum SaveStep {
    AlreadySaved,
    Insert,
}

/// Why a package is not saved.
#[derive(Clone, Copy, Debug, PartialEq, Eq, Structural)]
pub enum SaveFault {
    VersionTaken,
    TooManyPackages,
    ArchiveTooLong,
    TooManyBytes,
}

/// A number of bytes, or the largest 64-bit number where it is larger.
pub open spec fn saturated(bytes: int) -> int {
    if bytes > i64::MAX {
        i64::MAX as int
    } else {
        bytes
    }
}

/// What is to be done with a package, or why it is not saved. One version of a source holds one
/// content, and the store keeps to its limits.
pub open spec fn save_decision(
    existing: Option<Seq<char>>,
    revision: Seq<char>,
    packages: int,
    bytes: int,
    archive: int,
    max_packages: int,
    max_bytes: int,
) -> Result<SaveStep, SaveFault> {
    if existing is Some {
        if existing->0 == revision {
            Ok(SaveStep::AlreadySaved)
        } else {
            Err(SaveFault::VersionTaken)
        }
    } else if packages >= max_packages {
        Err(SaveFault::TooManyPackages)
    } else if archive > i64::MAX {
        Err(SaveFault::ArchiveTooLong)
    } else if saturated(bytes + archive) > max_bytes {
        Err(SaveFault::TooManyBytes)
    } else {
        Ok(SaveStep::Insert)
    }
}

/// A row of the packages. The statements that read and write the table must agree with what is said
/// of these rows here.
#[derive(Debug)]
pub struct PackageRow {
    pub git: String,
    pub version: String,
    pub revision: String,
    pub archive: Vec<u8>,
}

/// The sources and versions of the rows, in order.
pub open spec fn package_keys(rows: Seq<PackageRow>) -> Seq<(Seq<char>, Seq<char>)> {
    rows.map_values(|row: PackageRow| (row.git@, row.version@))
}

/// The revisions of the rows, in order.
pub open spec fn package_revisions(rows: Seq<PackageRow>) -> Seq<Seq<char>> {
    rows.map_values(|row: PackageRow| row.revision@)
}

/// The revision that a version of a source holds.
pub open spec fn version_holds(rows: Seq<PackageRow>, git: Seq<char>, version: Seq<char>) -> Option<
    Seq<char>,
> {
    let at = text::first_index(package_keys(rows), (git, version));
    if at < rows.len() {
        Some(rows[at].revision@)
    } else {
        None
    }
}

/// The archive of a revision.
pub open spec fn archive_of(rows: Seq<PackageRow>, revision: Seq<char>) -> Option<Seq<u8>> {
    let at = text::first_index(package_revisions(rows), revision);
    if at < rows.len() {
        Some(rows[at].archive@)
    } else {
        None
    }
}

/// What is to be done with a package, given the rows of its version and what the store holds.
pub open spec fn package_decision(
    rows: Seq<PackageRow>,
    package: PackageRow,
    packages: int,
    bytes: int,
    max_packages: int,
    max_bytes: int,
) -> Result<SaveStep, SaveFault> {
    save_decision(
        version_holds(rows, package.git@, package.version@),
        package.revision@,
        packages,
        bytes,
        package.archive@.len() as int,
        max_packages,
        max_bytes,
    )
}

/// The rows after a package was asked to be saved.
pub open spec fn after_save(
    rows: Seq<PackageRow>,
    package: PackageRow,
    outcome: Result<SaveStep, SaveFault>,
) -> Seq<PackageRow> {
    if outcome == Ok::<SaveStep, SaveFault>(SaveStep::Insert) {
        rows.push(package)
    } else {
        rows
    }
}

/// Saves a package: `rows` are those of its source's version, `packages` and `bytes` what the whole
/// store holds.
pub fn save_package(
    rows: &mut Vec<PackageRow>,
    package: PackageRow,
    packages: i64,
    bytes: i64,
    max_packages: i64,
    max_bytes: i64,
) -> (outcome: Result<SaveStep, SaveFault>)
    ensures
        outcome == package_decision(
            old(rows)@,
            package,
            packages as int,
            bytes as int,
            max_packages as int,
            max_bytes as int,
        ),
        final(rows)@ == after_save(old(rows)@, package, outcome),
{
    let ghost keys = package_keys(rows@);
    let mut i: usize = 0;
    while i < rows.len()
        invariant
            i <= rows@.len(),
            rows@ == old(rows)@,
            keys == package_keys(rows@),
            forall|k: int| 0 <= k < i ==> keys[k] != (package.git@, package.version@),
        decreases rows@.len() - i,
    {
        let row = &rows[i];
        if text::same(row.git.as_str(), package.git.as_str()) && text::same(
            row.version.as_str(),
            package.version.as_str(),
        ) {
            proof {
                text::lemma_first_index_is(keys, (package.git@, package.version@), i as int);
            }
            if text::same(row.revision.as_str(), package.revision.as_str()) {
                return Ok(SaveStep::AlreadySaved);
            }
            return Err(SaveFault::VersionTaken);
        }
        i += 1;
    }
    proof {
        text::lemma_first_index_is(keys, (package.git@, package.version@), i as int);
    }
    if packages >= max_packages {
        return Err(SaveFault::TooManyPackages);
    }
    if package.archive.len() as u64 > i64::MAX as u64 {
        return Err(SaveFault::ArchiveTooLong);
    }
    let length: i64 = package.archive.len() as i64;
    let total: i64 = if bytes > i64::MAX - length {
        i64::MAX
    } else {
        bytes + length
    };
    if total > max_bytes {
        return Err(SaveFault::TooManyBytes);
    }
    rows.push(package);
    Ok(SaveStep::Insert)
}

/// The archive of a revision, among the rows.
pub fn package_archive<'a>(rows: &'a Vec<PackageRow>, revision: &str) -> (outcome: Result<
    Option<&'a Vec<u8>>,
    String,
>)
    ensures
        match outcome {
            Ok(Some(archive)) => package_revision(revision@)
                && archive_of(rows@, revision@) == Some(
                archive@,
            ),
            Ok(None) => package_revision(revision@) && archive_of(rows@, revision@) is None,
            Err(told) => !package_revision(revision@) && told@ == "插件包版本必须是完整 SHA-256"@,
        },
{
    match require_package_revision(revision) {
        Ok(()) => {},
        Err(told) => return Err(told),
    }
    let ghost revisions = package_revisions(rows@);
    let mut i: usize = 0;
    while i < rows.len()
        invariant
            i <= rows@.len(),
            revisions == package_revisions(rows@),
            package_revision(revision@),
            forall|k: int| 0 <= k < i ==> revisions[k] != revision@,
        decreases rows@.len() - i,
    {
        if text::same(rows[i].revision.as_str(), revision) {
            proof {
                text::lemma_first_index_is(revisions, revision@, i as int);
            }
            return Ok(Some(&rows[i].archive));
        }
        i += 1;
    }
    proof {
        text::lemma_first_index_is(revisions, revision@, i as int);
    }
    Ok(None)
}

/// A package that is saved twice is saved once: the second time nothing is done, whatever the store
/// holds then. Another content under the same version is refused and changes nothing. The archive
/// that was saved is what its revision gives, before and after.
pub proof fn lemma_saved_twice(
    rows: Seq<PackageRow>,
    first: PackageRow,
    other: PackageRow,
    packages: int,
    bytes: int,
    later_packages: int,
    later_bytes: int,
    max_packages: int,
    max_bytes: int,
)
    requires
        package_decision(rows, first, packages, bytes, max_packages, max_bytes) is Ok,
        other.git@ == first.git@,
        other.version@ == first.version@,
        other.revision@ != first.revision@,
    ensures
        ({
            let outcome = package_decision(rows, first, packages, bytes, max_packages, max_bytes);
            let saved = after_save(rows, first, outcome);
            let again = package_decision(
                saved,
                first,
                later_packages,
                later_bytes,
                max_packages,
                max_bytes,
            );
            let conflict = package_decision(
                saved,
                other,
                later_packages,
                later_bytes,
                max_packages,
                max_bytes,
            );
            &&& again == Ok::<SaveStep, SaveFault>(SaveStep::AlreadySaved)
            &&& after_save(saved, first, again) == saved
            &&& conflict == Err::<SaveStep, SaveFault>(SaveFault::VersionTaken)
            &&& after_save(saved, other, conflict) == saved
            &&& archive_of(saved, first.revision@) is Some
            &&& archive_of(rows, first.revision@) is Some ==> archive_of(saved, first.revision@)
                == archive_of(rows, first.revision@)
            &&& archive_of(rows, first.revision@) is None ==> archive_of(saved, first.revision@)
                == Some(first.archive@)
        }),
{
    let outcome = package_decision(rows, first, packages, bytes, max_packages, max_bytes);
    let saved = after_save(rows, first, outcome);
    let key = (first.git@, first.version@);
    text::lemma_first_index(package_keys(rows), key);
    text::lemma_first_index(package_revisions(rows), first.revision@);
    text::lemma_first_index(package_revisions(saved), first.revision@);
    let held = text::first_index(package_keys(rows), key);
    if outcome == Ok::<SaveStep, SaveFault>(SaveStep::Insert) {
        assert forall|k: int| 0 <= k < rows.len() implies package_keys(saved)[k] != key by {
            assert(package_keys(saved)[k] == package_keys(rows)[k]);
            assert(package_keys(rows).contains(package_keys(rows)[k]));
        }
        text::lemma_first_index_is(package_keys(saved), key, rows.len() as int);
        assert(package_revisions(saved)[rows.len() as int] == first.revision@);
        let at = text::first_index(package_revisions(rows), first.revision@);
        assert forall|k: int| 0 <= k < rows.len() implies package_revisions(saved)[k]
            == package_revisions(rows)[k] by {}
        if at < rows.len() {
            text::lemma_first_index_is(package_revisions(saved), first.revision@, at);
        } else {
            assert forall|k: int| 0 <= k < rows.len() implies package_revisions(saved)[k]
                != first.revision@ by {
                assert(package_revisions(rows).contains(package_revisions(rows)[k]));
            }
            text::lemma_first_index_is(
                package_revisions(saved),
                first.revision@,
                rows.len() as int,
            );
        }
    } else {
        assert(package_revisions(rows)[held] == first.revision@);
        assert(package_revisions(rows).contains(first.revision@));
    }
}

/// What the store holds stays within its limits: a package is inserted only where the store then
/// holds no more packages and no more bytes than allowed. The limit on the bytes is below the
/// largest number that can be counted.
pub proof fn lemma_store_stays_within_limits(
    existing: Option<Seq<char>>,
    revision: Seq<char>,
    packages: int,
    bytes: int,
    archive: int,
    max_packages: int,
    max_bytes: int,
)
    requires
        save_decision(existing, revision, packages, bytes, archive, max_packages, max_bytes)
            == Ok::<
            SaveStep,
            SaveFault,
        >(SaveStep::Insert),
        max_bytes < i64::MAX,
    ensures
        packages + 1 <= max_packages,
        bytes + archive <= max_bytes,
        existing is None,
{
}

impl SaveFault {
    /// The text shown for the fault.
    pub open spec fn text(&self) -> Seq<char> {
        match self {
            SaveFault::VersionTaken => "同一来源的版本号已发布其他内容，请使用新的版本号"@,
            SaveFault::TooManyPackages => "插件中心版本数量超过宿主配额"@,
            SaveFault::ArchiveTooLong => "out of range integral type conversion attempted"@,
            SaveFault::TooManyBytes => "插件中心二进制存储超过宿主配额"@,
        }
    }

    /// The text shown for the fault.
    pub fn message(&self) -> (message: String)
        ensures
            message@ == self.text(),
    {
        let message = match self {
            SaveFault::VersionTaken => "同一来源的版本号已发布其他内容，请使用新的版本号",
            SaveFault::TooManyPackages => "插件中心版本数量超过宿主配额",
            SaveFault::ArchiveTooLong => "out of range integral type conversion attempted",
            SaveFault::TooManyBytes => "插件中心二进制存储超过宿主配额",
        };
        message.to_owned()
    }
}

// Bringing packages back

/// What is known so far while a package is being brought back to the local cache.
#[derive(Clone, Copy, Debug, PartialEq, Eq, Structural)]
pub enum RestoreStep {
    /// The revision is no package's; there is nothing to bring back.
    Skip,
    FetchArchive,
    /// The decoded package is put into the cache.
    Stage,
    ArchiveMissing,
    RevisionMismatch,
}

/// Decides how a package is brought back: `archive` tells whether the store holds it, `decoded`
/// which revision it says it is.
pub fn restore_package_cache(revision: &str, archive: Option<bool>, decoded: Option<&str>) -> (step:
    RestoreStep)
    ensures
        step == if !package_revision(revision@) {
            RestoreStep::Skip
        } else if archive is None {
            RestoreStep::FetchArchive
        } else if archive == Some(false) {
            RestoreStep::ArchiveMissing
        } else if text::optional_str(decoded) == Some(revision@) {
            RestoreStep::Stage
        } else {
            RestoreStep::RevisionMismatch
        },
{
    if !is_package_revision(revision) {
        return RestoreStep::Skip;
    }
    match archive {
        None => RestoreStep::FetchArchive,
        Some(false) => RestoreStep::ArchiveMissing,
        Some(true) => match decoded {
            Some(decoded) => {
                if text::same(decoded, revision) {
                    RestoreStep::Stage
                } else {
                    RestoreStep::RevisionMismatch
                }
            },
            None => RestoreStep::RevisionMismatch,
        },
    }
}

impl RestoreStep {
    /// What is told where a package cannot be brought back.
    pub open spec fn refusal(&self) -> Option<Seq<char>> {
        match self {
            RestoreStep::ArchiveMissing => Some("插件中心没有保存该内容版本的二进制包"@),
            RestoreStep::RevisionMismatch => Some("数据库插件包与请求的内容版本不一致"@),
            _ => None,
        }
    }

    /// What is told where a package cannot be brought back.
    pub fn refusal_text(&self) -> (told: Option<String>)
        ensures
            text::optional(told) == self.refusal(),
    {
        match self {
            RestoreStep::ArchiveMissing => Some("插件中心没有保存该内容版本的二进制包".to_owned()),
            RestoreStep::RevisionMismatch => Some("数据库插件包与请求的内容版本不一致".to_owned()),
            _ => None,
        }
    }
}

/// When a package is saved. A version that is there keeps its content: the same content is saved
/// already, any other is refused. A new version is inserted where there is room for one more
/// package and for its bytes, and refused otherwise; the number of packages is looked at first.
pub proof fn lemma_when_a_package_is_saved(rows: Seq<PackageRow>, package: PackageRow, at: int,
    packages: int, bytes: int, max_packages: int, max_bytes: int)
    requires
        0 <= at <= rows.len(),
        forall|k: int| 0 <= k < at ==> !((#[trigger] rows[k]).git@ == package.git@
            && rows[k].version@ == package.version@),
        at < rows.len() ==> rows[at].git@ == package.git@ && rows[at].version@ == package.version@,
        package.archive@.len() <= i64::MAX,
    ensures
        ({
            let outcome = package_decision(rows, package, packages, bytes, max_packages, max_bytes);
            let known = at < rows.len();
            let size = package.archive@.len() as int;
            &&& known && rows[at].revision@ == package.revision@ ==> outcome == Ok::<
                SaveStep,
                SaveFault,
            >(SaveStep::AlreadySaved)
            &&& known && rows[at].revision@ != package.revision@ ==> outcome == Err::<
                SaveStep,
                SaveFault,
            >(SaveFault::VersionTaken)
            &&& !known && packages >= max_packages ==> outcome == Err::<SaveStep, SaveFault>(
                SaveFault::TooManyPackages,
            )
            &&& !known && packages < max_packages && bytes + size <= max_bytes && bytes + size
                <= i64::MAX ==> outcome == Ok::<SaveStep, SaveFault>(SaveStep::Insert)
            &&& !known && packages < max_packages && bytes + size > max_bytes && max_bytes
                < i64::MAX ==> outcome == Err::<SaveStep, SaveFault>(SaveFault::TooManyBytes)
            &&& outcome == Ok::<SaveStep, SaveFault>(SaveStep::Insert) ==> after_save(
                rows,
                package,
                outcome,
            ) == rows.push(package)
            &&& outcome != Ok::<SaveStep, SaveFault>(SaveStep::Insert) ==> after_save(
                rows,
                package,
                outcome,
            ) == rows
        }),
{
    assert forall|k: int| 0 <= k < at implies package_keys(rows)[k] != (
        package.git@,
        package.version@,
    ) by {
        assert(!(rows[k].git@ == package.git@ && rows[k].version@ == package.version@));
    }
    text::lemma_first_index_is(package_keys(rows), (package.git@, package.version@), at);
}

/// The archive of a revision is that of the first row that holds it, and no other.
pub proof fn lemma_archive_of_a_revision(rows: Seq<PackageRow>, revision: Seq<char>, at: int)
    requires
        0 <= at <= rows.len(),
        forall|k: int| 0 <= k < at ==> (#[trigger] rows[k]).revision@ != revision,
        at < rows.len() ==> rows[at].revision@ == revision,
    ensures
        at < rows.len() ==> archive_of(rows, revision) == Some(rows[at].archive@),
        at == rows.len() ==> archive_of(rows, revision) is None,
{
    assert forall|k: int| 0 <= k < at implies package_revisions(rows)[k] != revision by {
        assert(rows[k].revision@ != revision);
    }
    text::lemma_first_index_is(package_revisions(rows), revision, at);
}

/// A package's revision is 64 lower-case hexadecimal digits.
pub proof fn lemma_package_revisions(revision: Seq<char>, i: int)
    requires
        0 <= i < revision.len(),
    ensures
        package_revision(revision) ==> revision.len() == 64 && ('0' <= revision[i] <= '9'
            || 'a' <= revision[i] <= 'f'),
        revision.len() == 64 && (forall|k: int| 0 <= k < 64
            ==> '0' <= (#[trigger] revision[k]) <= '9' || 'a' <= revision[k] <= 'f')
            ==> package_revision(revision),
{
}

/// A limit is read as it is written in decimal notation, where it is a positive 64-bit number; a
/// plus sign may stand before it.
pub proof fn lemma_limits_are_read_back(limit: i64, digits: Seq<char>)
    requires
        limit > 0,
        digits == text::decimal(limit as nat),
    ensures
        positive_number(digits) == Some(limit),
        positive_number(seq!['+'] + digits) == Some(limit),
        positive_number(Seq::<char>::empty()) is None,
        positive_number(seq!['0']) is None,
        positive_number(seq!['-'] + digits) is None,
{
    text::lemma_decimal_is_read_back(limit as nat);
    let signed = seq!['+'] + digits;
    assert(signed.skip(1) =~= digits);
    assert(digits[0] != '+');
    assert(seq!['0'].drop_last() =~= Seq::<char>::empty());
    reveal_with_fuel(text::number, 2);
    let negative = seq!['-'] + digits;
    assert(negative[0] == '-');
}

/// Each of these is told in its own words.
pub proof fn lemma_told_save_fault(fault: SaveFault)
    ensures
        fault is VersionTaken ==> fault.text() == "同一来源的版本号已发布其他内容，请使用新的版本号"@,
        fault is TooManyPackages ==> fault.text() == "插件中心版本数量超过宿主配额"@,
        fault is ArchiveTooLong ==> fault.text()
            == "out of range integral type conversion attempted"@,
        fault is TooManyBytes ==> fault.text() == "插件中心二进制存储超过宿主配额"@,
{
}

} // verus!
