//! The package manager: search over the package index, the local installed
//! set, installed-first ordering with an optional result cap, and install and
//! remove plans behind the shared identifier gate. The index's JSON answers
//! are decoded by the `serde_json` crate behind trusted wrappers; everything
//! done with the decoded entries is verified.

use vstd::prelude::*;
use vstd::string::StringSliceAdditionalSpecFns;
use vstd::string::StrSliceExecFns;
use vstd::multiset::Multiset;
use vstd::seq_lib::lemma_multiset_commutative;
use vstd::seq_lib::group_to_multiset_ensures;
use crate::command::{CommandOutcome, CommandPlan};
use crate::errors::{CoreError, FailureClass};
use crate::text::{bytes_eq, bytes_le, contains_seq, contains_subslice, fields_seq, last_index_of,
    lemma_lex_le_total, lemma_lex_le_trans, lex_le, views_of};

verus! {

/// One package as the caller sees it.
pub struct Package {
    pub name: Vec<u8>,
    pub version: Vec<u8>,
    pub description: Option<Vec<u8>>,
    pub installed: bool,
    pub channel: Option<Vec<u8>>,
}

/// The mathematical value of a package record.
pub ghost struct PackageView {
    pub name: Seq<u8>,
    pub version: Seq<u8>,
    pub description: Option<Seq<u8>>,
    pub installed: bool,
    pub channel: Option<Seq<u8>>,
}

impl View for Package {
    type V = PackageView;

    open spec fn view(&self) -> PackageView {
        PackageView {
            name: self.name@,
            version: self.version@,
            description: match self.description {
                Some(ref d) => Some(d@),
                None => None,
            },
            installed: self.installed,
            channel: match self.channel {
                Some(ref c) => Some(c@),
                None => None,
            },
        }
    }
}

/// The views of a package list.
pub open spec fn pkg_views(s: Seq<Package>) -> Seq<PackageView> {
    s.map_values(|p: Package| p@)
}

/// The answer to one search: the ordered, capped package list, how many
/// matches there were before the cap, and how long the search took.
pub struct PackageSearchResult {
    pub packages: Vec<Package>,
    pub total_count: usize,
    pub search_time_ms: u64,
}

/// One entry of the index's search answer, decoded to plain values.
pub struct SearchEntry {
    pub attr_path: Vec<u8>,
    pub version: Option<Vec<u8>>,
    pub description: Option<Vec<u8>>,
}

/// The mathematical value of a search entry.
pub ghost struct SearchEntryView {
    pub attr_path: Seq<u8>,
    pub version: Option<Seq<u8>>,
    pub description: Option<Seq<u8>>,
}

impl View for SearchEntry {
    type V = SearchEntryView;

    open spec fn view(&self) -> SearchEntryView {
        SearchEntryView {
            attr_path: self.attr_path@,
            version: match self.version {
                Some(ref v) => Some(v@),
                None => None,
            },
            description: match self.description {
                Some(ref d) => Some(d@),
                None => None,
            },
        }
    }
}

/// One entry of the local listing's JSON answer, decoded to plain values.
pub struct InstalledEntry {
    pub name: Option<Vec<u8>>,
    pub version: Option<Vec<u8>>,
    pub description: Option<Vec<u8>>,
}

/// The mathematical value of a listing entry.
pub ghost struct InstalledEntryView {
    pub name: Option<Seq<u8>>,
    pub version: Option<Seq<u8>>,
    pub description: Option<Seq<u8>>,
}

impl View for InstalledEntry {
    type V = InstalledEntryView;

    open spec fn view(&self) -> InstalledEntryView {
        InstalledEntryView {
            name: match self.name {
                Some(ref v) => Some(v@),
                None => None,
            },
            version: match self.version {
                Some(ref v) => Some(v@),
                None => None,
            },
            description: match self.description {
                Some(ref d) => Some(d@),
                None => None,
            },
        }
    }
}

/// Whether the package index's search answer decodes: a function of the
/// bytes alone, decided by the JSON decoder.
pub uninterp spec fn search_listing_decodes(s: Seq<u8>) -> bool;

/// What the package tool's local listing decodes to: the entry sequence is a
/// function of the bytes alone, since a JSON array preserves its order.
pub uninterp spec fn installed_listing_of(s: Seq<u8>) -> Option<Seq<InstalledEntryView>>;

/// The package name of an attribute path: the segment after the last dot.
pub open spec fn attr_name(attr: Seq<u8>) -> Seq<u8> {
    match last_index_of(attr, 46) {
        None => attr,
        Some(j) => attr.subrange(j + 1, attr.len() as int),
    }
}

/// The package name at the end of an attribute path.
pub fn name_from_attr_path(attr: &[u8]) -> (r: Vec<u8>)
    ensures
        r@ == attr_name(attr@),
{
    let n = attr.len();
    let mut j: usize = n;
    while j > 0
        invariant
            0 <= j <= n,
            attr@.len() == n,
            forall|k: int| j <= k < n ==> attr@[k] != 46,
        decreases j,
    {
        if attr[j - 1] == 46 {
            proof {
                crate::text::lemma_last_index_at(attr@, 46, j - 1);
            }
            return crate::text::sub_vec(attr, j, n);
        }
        j = j - 1;
    }
    proof {
        crate::text::lemma_last_index_none(attr@, 46);
    }
    vstd::slice::slice_to_vec(attr)
}

/// Whether `name` is among the installed names.
pub fn contains_name(names: &Vec<Vec<u8>>, name: &[u8]) -> (r: bool)
    ensures
        r == views_of(names@).contains(name@),
{
    let n = names.len();
    let mut i: usize = 0;
    while i < n
        invariant
            0 <= i <= n,
            names@.len() == n,
            forall|k: int| 0 <= k < i ==> #[trigger] views_of(names@)[k] != name@,
        decreases n - i,
    {
        if bytes_eq(names[i].as_slice(), name) {
            proof {
                assert(views_of(names@)[i as int] == name@);
            }
            return true;
        }
        i = i + 1;
    }
    proof {
        assert(!views_of(names@).contains(name@));
    }
    false
}

/// The package record of one search entry: the attribute path's last segment
/// as the name, the reported version or a fixed placeholder, membership in
/// the installed set, and the index channel.
pub open spec fn package_model(e: SearchEntryView, installed: Seq<Seq<u8>>) -> PackageView {
    PackageView {
        name: attr_name(e.attr_path),
        version: match e.version {
            Some(v) => v,
            None => "unknown".spec_bytes(),
        },
        description: e.description,
        installed: installed.contains(attr_name(e.attr_path)),
        channel: Some("nixpkgs".spec_bytes()),
    }
}

/// The package records of decoded search entries, in entry order.
pub fn packages_from_entries(entries: &Vec<SearchEntry>, installed: &Vec<Vec<u8>>) -> (r: Vec<
    Package,
>)
    ensures
        r@.len() == entries@.len(),
        forall|i: int|
            0 <= i < r@.len() ==> #[trigger] r@[i]@ == package_model(
                entries@[i]@,
                views_of(installed@),
            ),
{
    let n = entries.len();
    let mut r: Vec<Package> = Vec::new();
    let mut i: usize = 0;
    while i < n
        invariant
            0 <= i <= n,
            entries@.len() == n,
            r@.len() == i,
            forall|k: int|
                0 <= k < i ==> #[trigger] r@[k]@ == package_model(
                    entries@[k]@,
                    views_of(installed@),
                ),
        decreases n - i,
    {
        let name = name_from_attr_path(entries[i].attr_path.as_slice());
        let version = match &entries[i].version {
            Some(v) => vstd::slice::slice_to_vec(v.as_slice()),
            None => ("unknown").as_bytes_vec(),
        };
        let description = match &entries[i].description {
            Some(d) => Some(vstd::slice::slice_to_vec(d.as_slice())),
            None => None,
        };
        let installed_flag = contains_name(installed, name.as_slice());
        r.push(
            Package {
                name,
                version,
                description,
                installed: installed_flag,
                channel: Some(("nixpkgs").as_bytes_vec()),
            },
        );
        i = i + 1;
    }
    r
}

/// The search ordering: installed packages first, then names alphabetically.
pub open spec fn pkg_le(a: PackageView, b: PackageView) -> bool {
    if a.installed != b.installed {
        a.installed
    } else {
        lex_le(a.name, b.name)
    }
}

/// The list is ordered installed-first, then alphabetically.
pub open spec fn pkg_sorted(s: Seq<PackageView>) -> bool {
    forall|i: int, j: int| 0 <= i < j < s.len() ==> pkg_le(#[trigger] s[i], #[trigger] s[j])
}

proof fn lemma_pkg_le_total(a: PackageView, b: PackageView)
    ensures
        pkg_le(a, b) || pkg_le(b, a),
{
    lemma_lex_le_total(a.name, b.name);
}

proof fn lemma_pkg_le_trans(a: PackageView, b: PackageView, c: PackageView)
    requires
        pkg_le(a, b),
        pkg_le(b, c),
    ensures
        pkg_le(a, c),
{
    if a.installed == b.installed && b.installed == c.installed {
        lemma_lex_le_trans(a.name, b.name, c.name);
    }
}

/// Whether `a` comes no later than `b` in the search ordering.
pub fn pkg_le_exec(a: &Package, b: &Package) -> (r: bool)
    ensures
        r == pkg_le(a@, b@),
{
    if a.installed != b.installed {
        a.installed
    } else {
        bytes_le(a.name.as_slice(), b.name.as_slice())
    }
}

proof fn lemma_singleton_multiset(x: PackageView)
    ensures
        seq![x].to_multiset() =~= Multiset::<PackageView>::empty().insert(x),
{
    broadcast use group_to_multiset_ensures;

    assert(seq![x] =~= Seq::<PackageView>::empty().push(x));
    assert(Seq::<PackageView>::empty().to_multiset().len() == 0);
    assert(Seq::<PackageView>::empty().to_multiset() =~= Multiset::<PackageView>::empty());
}

/// Insert a package into an ordered list, keeping the order.
fn insert_sorted(out: &mut Vec<Package>, x: Package)
    requires
        pkg_sorted(pkg_views(old(out)@)),
    ensures
        pkg_sorted(pkg_views(final(out)@)),
        pkg_views(final(out)@).to_multiset() == pkg_views(old(out)@).to_multiset().insert(x@),
{
    let n = out.len();
    let mut p: usize = 0;
    while p < n && pkg_le_exec(&out[p], &x)
        invariant
            0 <= p <= n,
            out@.len() == n,
            out@ == old(out)@,
            forall|k: int| 0 <= k < p ==> pkg_le(#[trigger] pkg_views(out@)[k], x@),
        decreases n - p,
    {
        p = p + 1;
    }
    let ghost old_views = pkg_views(out@);
    out.insert(p, x);
    proof {
        let new_views = pkg_views(out@);
        assert(new_views =~= old_views.insert(p as int, x@));
        // Order: entries before the insertion point stay below `x`, entries
        // after it stay above by totality and transitivity.
        if (p as int) < old_views.len() {
            lemma_pkg_le_total(old_views[p as int], x@);
        }
        assert forall|i: int, j: int| 0 <= i < j < new_views.len() implies pkg_le(
            #[trigger] new_views[i],
            #[trigger] new_views[j],
        ) by {
            if i < p && j > p {
                assert(new_views[i] == old_views[i]);
                assert(new_views[j] == old_views[j - 1]);
            } else if i == p && j > p {
                assert(new_views[j] == old_views[j - 1]);
                if j - 1 > p as int {
                    lemma_pkg_le_trans(x@, old_views[p as int], old_views[j - 1]);
                }
            } else if i < p && j == p {
                assert(new_views[i] == old_views[i]);
            } else if i > p && j > p {
                assert(new_views[i] == old_views[i - 1]);
                assert(new_views[j] == old_views[j - 1]);
            }
        }
        // Multiset: inserting one element adds exactly it.
        assert(new_views =~= old_views.take(p as int) + (seq![x@] + old_views.skip(p as int)));
        lemma_multiset_commutative(old_views.take(p as int), seq![x@] + old_views.skip(p as int));
        lemma_multiset_commutative(seq![x@], old_views.skip(p as int));
        assert(old_views =~= old_views.take(p as int) + old_views.skip(p as int));
        lemma_multiset_commutative(old_views.take(p as int), old_views.skip(p as int));
        lemma_singleton_multiset(x@);
        assert(pkg_views(out@).to_multiset() =~= old_views.to_multiset().insert(x@));
    }
}

/// Order a package list installed-first, then alphabetically. The result is
/// a permutation of the input.
pub fn sort_packages(v: Vec<Package>) -> (r: Vec<Package>)
    ensures
        pkg_sorted(pkg_views(r@)),
        pkg_views(r@).to_multiset() == pkg_views(v@).to_multiset(),
{
    let ghost orig = pkg_views(v@);
    let mut v = v;
    let mut out: Vec<Package> = Vec::new();
    proof {
        broadcast use group_to_multiset_ensures;

        assert(pkg_views(out@) =~= Seq::<PackageView>::empty());
        assert(Seq::<PackageView>::empty().to_multiset().len() == 0);
        assert(pkg_views(out@).to_multiset() =~= Multiset::<PackageView>::empty());
    }
    while v.len() > 0
        invariant
            pkg_sorted(pkg_views(out@)),
            pkg_views(out@).to_multiset().add(pkg_views(v@).to_multiset()) == orig.to_multiset(),
        decreases v@.len(),
    {
        let ghost v_before = pkg_views(v@);
        let x = match v.pop() {
            Some(x) => x,
            None => {
                unreached()
            },
        };
        proof {
            broadcast use group_to_multiset_ensures;

            assert(pkg_views(v@).push(x@) =~= v_before);
            assert(v_before.to_multiset() =~= pkg_views(v@).to_multiset().insert(x@));
        }
        insert_sorted(&mut out, x);
        proof {
            assert(pkg_views(out@).to_multiset().add(pkg_views(v@).to_multiset())
                =~= orig.to_multiset());
        }
    }
    proof {
        broadcast use group_to_multiset_ensures;

        assert(pkg_views(v@) =~= Seq::<PackageView>::empty());
        assert(pkg_views(v@).to_multiset().len() == 0);
        assert(pkg_views(out@).to_multiset() =~= orig.to_multiset());
    }
    out
}

/// The views of a search-entry list.
pub open spec fn installed_entry_views_search(v: Seq<SearchEntry>) -> Seq<SearchEntryView> {
    v.map_values(|e: SearchEntry| e@)
}

/// The package records of all decoded entries, in entry order.
pub open spec fn search_models(
    entries: Seq<SearchEntryView>,
    installed: Seq<Seq<u8>>,
) -> Seq<PackageView> {
    entries.map_values(|e: SearchEntryView| package_model(e, installed))
}

/// The capped length of a search answer: the whole list, or the cap when one
/// is given and the list is longer.
pub open spec fn capped_len(total: nat, limit: Option<usize>) -> nat {
    match limit {
        Some(l) => if total <= l {
            total
        } else {
            l as nat
        },
        None => total,
    }
}

/// The answer to one search: every entry becomes a package, the list is the
/// prefix of an installed-first, then alphabetical ordering of all of them,
/// capped only after ordering, so the most relevant items survive the cap.
pub fn search_result(
    entries: &Vec<SearchEntry>,
    installed: &Vec<Vec<u8>>,
    limit: Option<usize>,
    search_time_ms: u64,
) -> (r: PackageSearchResult)
    ensures
        r.total_count == entries@.len(),
        r.search_time_ms == search_time_ms,
        pkg_sorted(pkg_views(r.packages@)),
        r.packages@.len() == capped_len(entries@.len(), limit),
        exists|ordered: Seq<PackageView>|
            {
                &&& #[trigger] pkg_sorted(ordered)
                &&& ordered.to_multiset() == search_models(
                    installed_entry_views_search(entries@),
                    views_of(installed@),
                ).to_multiset()
                &&& pkg_views(r.packages@) == ordered.take(r.packages@.len() as int)
            },
        forall|i: int|
            0 <= i < r.packages@.len() ==> exists|j: int|
                0 <= j < entries@.len() && (#[trigger] r.packages@[i])@ == #[trigger] package_model(
                    entries@[j]@,
                    views_of(installed@),
                ),
{
    let full = packages_from_entries(entries, installed);
    let ghost full_views = pkg_views(full@);
    let total = full.len();
    let mut packages = sort_packages(full);
    let ghost sorted_views = pkg_views(packages@);
    proof {
        broadcast use group_to_multiset_ensures;

        assert(sorted_views.to_multiset().len() == sorted_views.len());
        assert(full_views.to_multiset().len() == full_views.len());
        assert(packages@.len() == entries@.len());
    }
    if let Some(l) = limit {
        if l < packages.len() {
            packages.truncate(l);
        }
    }
    proof {
        broadcast use group_to_multiset_ensures;

        let kept = pkg_views(packages@);
        assert(kept =~= sorted_views.take(kept.len() as int));
        assert(full_views =~= search_models(
            installed_entry_views_search(entries@),
            views_of(installed@),
        ));
        assert(pkg_sorted(sorted_views) && sorted_views.to_multiset() == search_models(
            installed_entry_views_search(entries@),
            views_of(installed@),
        ).to_multiset() && pkg_views(packages@) == sorted_views.take(
            packages@.len() as int,
        ));
        assert forall|i: int| 0 <= i < packages@.len() implies exists|j: int|
            0 <= j < entries@.len() && (#[trigger] packages@[i])@ == #[trigger] package_model(
                entries@[j]@,
                views_of(installed@),
            ) by {
            let x = packages@[i]@;
            assert(kept[i] == x);
            assert(sorted_views[i] == x);
            assert(sorted_views.contains(x));
            assert(sorted_views.to_multiset().count(x) > 0);
            assert(full_views.to_multiset().count(x) > 0);
            assert(full_views.contains(x));
            let j = choose|j: int| 0 <= j < full_views.len() && full_views[j] == x;
            assert(full@[j]@ == package_model(entries@[j]@, views_of(installed@)));
        }
    }
    PackageSearchResult { packages, total_count: total, search_time_ms }
}

/// A package identifier is acceptable when it passes the shared identifier
/// gate of the package and service managers.
pub open spec fn package_ident_ok(n: Seq<u8>) -> bool {
    crate::security::valid_identifier(n)
}

/// The report of a finished install.
pub open spec fn install_report(name: Seq<u8>, stdout: Seq<u8>) -> Seq<u8> {
    "Package '".spec_bytes() + name + "' installed successfully\n\n".spec_bytes() + stdout
}

/// The report of a finished removal.
pub open spec fn remove_report(name: Seq<u8>, stdout: Seq<u8>) -> Seq<u8> {
    "Package '".spec_bytes() + name + "' removed successfully\n\n".spec_bytes() + stdout
}

/// The package manager.
pub struct PackageManager;

impl PackageManager {
    /// Whether a package identifier may reach the tool at all.
    pub fn is_package_ident_ok(name: &[u8]) -> (r: bool)
        ensures
            r == package_ident_ok(name@),
    {
        crate::security::is_valid_identifier(name)
    }

    /// The plan that searches the package index.
    pub fn search_plan(query: &[u8]) -> (r: CommandPlan)
        ensures
            r.program@ == "nix".spec_bytes(),
            views_of(r.args@) == seq![
                "search".spec_bytes(),
                "nixpkgs".spec_bytes(),
                query@,
                "--json".spec_bytes(),
            ],
            !r.needs_elevation,
            !r.streaming,
    {
        let mut args: Vec<Vec<u8>> = Vec::new();
        args.push(("search").as_bytes_vec());
        args.push(("nixpkgs").as_bytes_vec());
        args.push(vstd::slice::slice_to_vec(query));
        args.push(("--json").as_bytes_vec());
        proof {
            assert(views_of(args@) =~= seq![
                "search".spec_bytes(),
                "nixpkgs".spec_bytes(),
                query@,
                "--json".spec_bytes(),
            ]);
        }
        CommandPlan {
            program: ("nix").as_bytes_vec(),
            args,
            needs_elevation: false,
            streaming: false,
        }
    }

    /// The plan that lists the locally installed packages as JSON.
    pub fn list_installed_plan() -> (r: CommandPlan)
        ensures
            r.program@ == "nix-env".spec_bytes(),
            views_of(r.args@) == seq!["-q".spec_bytes(), "--json".spec_bytes()],
            !r.needs_elevation,
            !r.streaming,
    {
        let mut args: Vec<Vec<u8>> = Vec::new();
        args.push(("-q").as_bytes_vec());
        args.push(("--json").as_bytes_vec());
        proof {
            assert(views_of(args@) =~= seq!["-q".spec_bytes(), "--json".spec_bytes()]);
        }
        CommandPlan {
            program: ("nix-env").as_bytes_vec(),
            args,
            needs_elevation: false,
            streaming: false,
        }
    }

    /// The plan that lists the locally installed package names, one per line.
    pub fn installed_names_plan() -> (r: CommandPlan)
        ensures
            r.program@ == "nix-env".spec_bytes(),
            views_of(r.args@) == seq!["-q".spec_bytes(), "--no-name".spec_bytes()],
            !r.needs_elevation,
            !r.streaming,
    {
        let mut args: Vec<Vec<u8>> = Vec::new();
        args.push(("-q").as_bytes_vec());
        args.push(("--no-name").as_bytes_vec());
        proof {
            assert(views_of(args@) =~= seq!["-q".spec_bytes(), "--no-name".spec_bytes()]);
        }
        CommandPlan {
            program: ("nix-env").as_bytes_vec(),
            args,
            needs_elevation: false,
            streaming: false,
        }
    }

    /// The installed names in a line-per-name listing: its nonempty lines.
    pub fn package_names_from_listing(out: &[u8]) -> (r: Vec<Vec<u8>>)
        ensures
            views_of(r@) == fields_seq(out@, 10),
    {
        crate::text::split_fields(out, 10)
    }

    /// The plan of an install: an unacceptable identifier is refused before
    /// any tool runs; the package is addressed through the index, in flake
    /// or legacy notation.
    pub fn install_plan(name: &[u8], use_flakes: bool) -> (r: Result<CommandPlan, CoreError>)
        ensures
            match r {
                Ok(p) => {
                    &&& package_ident_ok(name@)
                    &&& p.program@ == "nix-env".spec_bytes()
                    &&& views_of(p.args@) == seq![
                        "-iA".spec_bytes(),
                        if use_flakes {
                            "nixpkgs#".spec_bytes() + name@
                        } else {
                            "nixpkgs.".spec_bytes() + name@
                        },
                    ]
                    &&& !p.needs_elevation
                    &&& !p.streaming
                },
                Err(e) => !package_ident_ok(name@) && e is InvalidIdentifier,
            },
    {
        if !Self::is_package_ident_ok(name) {
            return Err(CoreError::InvalidIdentifier);
        }
        let mut target = if use_flakes {
            ("nixpkgs#").as_bytes_vec()
        } else {
            ("nixpkgs.").as_bytes_vec()
        };
        target.extend_from_slice(name);
        proof {
            assert(target@ == if use_flakes {
                "nixpkgs#".spec_bytes() + name@
            } else {
                "nixpkgs.".spec_bytes() + name@
            });
        }
        let mut args: Vec<Vec<u8>> = Vec::new();
        args.push(("-iA").as_bytes_vec());
        args.push(target);
        proof {
            assert(views_of(args@) =~= seq![
                "-iA".spec_bytes(),
                if use_flakes {
                    "nixpkgs#".spec_bytes() + name@
                } else {
                    "nixpkgs.".spec_bytes() + name@
                },
            ]);
        }
        Ok(
            CommandPlan {
                program: ("nix-env").as_bytes_vec(),
                args,
                needs_elevation: false,
                streaming: false,
            },
        )
    }

    /// The report of a finished install: the confirmation with the tool's
    /// output on success; on failure a permission refusal where the
    /// diagnostics show one, else the raw diagnostics.
    pub fn install_outcome(name: &[u8], outcome: CommandOutcome) -> (r: Result<Vec<u8>, CoreError>)
        ensures
            match r {
                Ok(msg) => outcome.succeeded && msg@ == install_report(name@, outcome.stdout@),
                Err(e) => {
                    &&& !outcome.succeeded
                    &&& if contains_seq(outcome.stderr@, "permission denied".spec_bytes()) {
                        e is PermissionDenied
                    } else {
                        match e {
                            CoreError::SubprocessFailed { class, stderr } => {
                                &&& class is Generic
                                &&& stderr@ == outcome.stderr@
                            },
                            _ => false,
                        }
                    }
                },
            },
    {
        if !outcome.succeeded {
            if contains_subslice(
                outcome.stderr.as_slice(),
                ("permission denied").as_bytes_vec().as_slice(),
            ) {
                return Err(CoreError::PermissionDenied);
            }
            return Err(
                CoreError::SubprocessFailed { class: FailureClass::Generic, stderr: outcome.stderr },
            );
        }
        let mut msg = ("Package '").as_bytes_vec();
        msg.extend_from_slice(name);
        msg.extend_from_slice(("' installed successfully\n\n").as_bytes_vec().as_slice());
        msg.extend_from_slice(outcome.stdout.as_slice());
        proof {
            assert(msg@ =~= install_report(name@, outcome.stdout@));
        }
        Ok(msg)
    }

    /// The plan of a removal: an unacceptable identifier is refused, and a
    /// package that is not installed cannot be removed. Neither refusal
    /// reaches a tool.
    pub fn remove_plan(name: &[u8], installed: &Vec<Vec<u8>>) -> (r: Result<
        CommandPlan,
        CoreError,
    >)
        ensures
            match r {
                Ok(p) => {
                    &&& package_ident_ok(name@)
                    &&& views_of(installed@).contains(name@)
                    &&& p.program@ == "nix-env".spec_bytes()
                    &&& views_of(p.args@) == seq!["-e".spec_bytes(), name@]
                    &&& !p.needs_elevation
                    &&& !p.streaming
                },
                Err(e) => if !package_ident_ok(name@) {
                    e is InvalidIdentifier
                } else {
                    &&& !views_of(installed@).contains(name@)
                    &&& match e {
                        CoreError::PackageNotInstalled(n) => n@ == name@,
                        _ => false,
                    }
                },
            },
    {
        if !Self::is_package_ident_ok(name) {
            return Err(CoreError::InvalidIdentifier);
        }
        if !contains_name(installed, name) {
            return Err(CoreError::PackageNotInstalled(vstd::slice::slice_to_vec(name)));
        }
        let mut args: Vec<Vec<u8>> = Vec::new();
        args.push(("-e").as_bytes_vec());
        args.push(vstd::slice::slice_to_vec(name));
        proof {
            assert(views_of(args@) =~= seq!["-e".spec_bytes(), name@]);
        }
        Ok(
            CommandPlan {
                program: ("nix-env").as_bytes_vec(),
                args,
                needs_elevation: false,
                streaming: false,
            },
        )
    }

    /// The report of a finished removal: the confirmation with the tool's
    /// output on success, else the raw diagnostics.
    pub fn remove_outcome(name: &[u8], outcome: CommandOutcome) -> (r: Result<Vec<u8>, CoreError>)
        ensures
            match r {
                Ok(msg) => outcome.succeeded && msg@ == remove_report(name@, outcome.stdout@),
                Err(e) => {
                    &&& !outcome.succeeded
                    &&& match e {
                        CoreError::SubprocessFailed { class, stderr } => {
                            &&& class is Generic
                            &&& stderr@ == outcome.stderr@
                        },
                        _ => false,
                    }
                },
            },
    {
        if !outcome.succeeded {
            return Err(
                CoreError::SubprocessFailed { class: FailureClass::Generic, stderr: outcome.stderr },
            );
        }
        let mut msg = ("Package '").as_bytes_vec();
        msg.extend_from_slice(name);
        msg.extend_from_slice(("' removed successfully\n\n").as_bytes_vec().as_slice());
        msg.extend_from_slice(outcome.stdout.as_slice());
        proof {
            assert(msg@ =~= remove_report(name@, outcome.stdout@));
        }
        Ok(msg)
    }
}

/// The package record of one local-listing entry: always installed, from
/// the user's own environment.
pub open spec fn installed_package_model(e: InstalledEntryView, name: Seq<u8>) -> PackageView {
    PackageView {
        name,
        version: match e.version {
            Some(v) => v,
            None => "unknown".spec_bytes(),
        },
        description: e.description,
        installed: true,
        channel: Some("user".spec_bytes()),
    }
}

/// The package records of a decoded local listing, skipping entries without
/// a name.
pub open spec fn installed_pkgs_of(entries: Seq<InstalledEntryView>) -> Seq<PackageView>
    decreases entries.len(),
{
    if entries.len() == 0 {
        Seq::empty()
    } else {
        installed_pkgs_of(entries.drop_last()) + (match entries.last().name {
            Some(n) => seq![installed_package_model(entries.last(), n)],
            None => Seq::empty(),
        })
    }
}

/// The views of a listing-entry list.
pub open spec fn installed_entry_views(v: Seq<InstalledEntry>) -> Seq<InstalledEntryView> {
    v.map_values(|e: InstalledEntry| e@)
}

impl PackageManager {
    /// The package records of a decoded local listing, in listing order.
    pub fn packages_from_installed(entries: Vec<InstalledEntry>) -> (r: Vec<Package>)
        ensures
            pkg_views(r@) == installed_pkgs_of(installed_entry_views(entries@)),
    {
        let n = entries.len();
        let mut r: Vec<Package> = Vec::new();
        let mut i: usize = 0;
        proof {
            assert(pkg_views(r@) =~= Seq::<PackageView>::empty());
            assert(installed_entry_views(entries@).take(0) =~= Seq::<InstalledEntryView>::empty());
        }
        while i < n
            invariant
                0 <= i <= n,
                entries@.len() == n,
                pkg_views(r@) == installed_pkgs_of(installed_entry_views(entries@).take(i as int)),
            decreases n - i,
        {
            let ghost r0 = r@;
            let ghost pre = installed_entry_views(entries@).take(i as int);
            let ghost post = installed_entry_views(entries@).take(i + 1 as int);
            proof {
                assert(post.drop_last() =~= pre);
                assert(post.last() == entries@[i as int]@);
            }
            if let Some(name) = &entries[i].name {
                let version = match &entries[i].version {
                    Some(v) => vstd::slice::slice_to_vec(v.as_slice()),
                    None => ("unknown").as_bytes_vec(),
                };
                let description = match &entries[i].description {
                    Some(d) => Some(vstd::slice::slice_to_vec(d.as_slice())),
                    None => None,
                };
                r.push(
                    Package {
                        name: vstd::slice::slice_to_vec(name.as_slice()),
                        version,
                        description,
                        installed: true,
                        channel: Some(("user").as_bytes_vec()),
                    },
                );
                proof {
                    assert(pkg_views(r@) =~= pkg_views(r0).push(r@.last()@));
                }
            }
            i = i + 1;
        }
        proof {
            assert(installed_entry_views(entries@).take(n as int) =~= installed_entry_views(
                entries@,
            ));
        }
        r
    }

    /// The local listing as the caller sees it: each named entry as an
    /// installed package, ordered alphabetically.
    pub fn list_installed_result(entries: Vec<InstalledEntry>) -> (r: Vec<Package>)
        ensures
            pkg_sorted(pkg_views(r@)),
            pkg_views(r@).to_multiset() == installed_pkgs_of(
                installed_entry_views(entries@),
            ).to_multiset(),
    {
        let pkgs = Self::packages_from_installed(entries);
        sort_packages(pkgs)
    }

    /// The answer to one search, from the index tool's raw output: decode
    /// its JSON, then order and cap the packages. Exactly the output that the
    /// decoder refuses fails with `ParseFailed`; whatever entries the decoder
    /// hands back, the answer is ordered installed-first then alphabetically,
    /// capped only after ordering, and counts every decoded entry.
    pub fn search_from_output(
        stdout: &[u8],
        installed: &Vec<Vec<u8>>,
        limit: Option<usize>,
        search_time_ms: u64,
    ) -> (r: Result<PackageSearchResult, CoreError>)
        ensures
            r is Ok == search_listing_decodes(stdout@),
            match r {
                Ok(res) => {
                    &&& res.search_time_ms == search_time_ms
                    &&& pkg_sorted(pkg_views(res.packages@))
                    &&& res.packages@.len() == capped_len(res.total_count as nat, limit)
                },
                Err(e) => e is ParseFailed,
            },
    {
        let entries = match Self::parse_search_json(stdout) {
            Some(entries) => entries,
            None => {
                return Err(CoreError::ParseFailed);
            },
        };
        Ok(search_result(&entries, installed, limit, search_time_ms))
    }

    /// The local listing, from the package tool's raw output: decode its
    /// JSON, then order the packages alphabetically. Exactly the output that
    /// the decoder refuses fails with `ParseFailed`; on success the packages
    /// are a permutation of the decoded listing's named entries, ordered.
    pub fn list_installed_from_output(stdout: &[u8]) -> (r: Result<Vec<Package>, CoreError>)
        ensures
            match r {
                Ok(pkgs) => {
                    &&& pkg_sorted(pkg_views(pkgs@))
                    &&& match installed_listing_of(stdout@) {
                        Some(entries) => pkg_views(pkgs@).to_multiset() == installed_pkgs_of(
                            entries,
                        ).to_multiset(),
                        None => false,
                    }
                },
                Err(e) => e is ParseFailed && installed_listing_of(stdout@) is None,
            },
    {
        let entries = match Self::parse_installed_json(stdout) {
            Some(entries) => entries,
            None => {
                return Err(CoreError::ParseFailed);
            },
        };
        Ok(Self::list_installed_result(entries))
    }

    /// Relies on serde_json's `from_str`: decodes the package index's search
    /// answer, a JSON object keyed by attribute path whose values carry the
    /// version and description, into plain entries. Whether the bytes decode
    /// is a function of the bytes alone; the object's iteration order is
    /// unspecified, so nothing is assumed about the order or content of the
    /// entries.
    #[verifier::external_body]
    pub fn parse_search_json(s: &[u8]) -> (r: Option<Vec<SearchEntry>>)
        ensures
            r is Some == search_listing_decodes(s@),
    {
        let text = std::str::from_utf8(s).ok()?;
        let parsed: std::collections::HashMap<String, serde_json::Value> =
            serde_json::from_str(text).ok()?;
        let take = |d: &serde_json::Value, k: &str| {
            d.get(k).and_then(|v| v.as_str()).map(|v| v.as_bytes().to_vec())
        };
        Some(parsed.into_iter().map(|(attr_path, details)| SearchEntry {
            attr_path: attr_path.into_bytes(),
            version: take(&details, "version"),
            description: take(&details, "description"),
        }).collect())
    }

    /// Relies on serde_json's `from_str`: decodes the package tool's local
    /// listing, a JSON array of objects carrying name, version and a nested
    /// description, into plain entries. A JSON array preserves its order and
    /// the field picks are pure, so the decoded listing is a function of the
    /// bytes alone, named `installed_listing_of`.
    #[verifier::external_body]
    pub fn parse_installed_json(s: &[u8]) -> (r: Option<Vec<InstalledEntry>>)
        ensures
            match r {
                Some(v) => installed_listing_of(s@) == Some(installed_entry_views(v@)),
                None => installed_listing_of(s@) is None,
            },
    {
        let text = std::str::from_utf8(s).ok()?;
        let parsed: Vec<serde_json::Value> = serde_json::from_str(text).ok()?;
        let take = |d: &serde_json::Value, k: &str| {
            d.get(k).and_then(|v| v.as_str()).map(|v| v.as_bytes().to_vec())
        };
        Some(parsed.into_iter().map(|pkg| InstalledEntry {
            name: take(&pkg, "name"),
            version: take(&pkg, "version"),
            description: pkg.get("meta").map(|m| take(m, "description")).flatten(),
        }).collect())
    }
}

} // verus!
