//! GitHub as a second source of licenses: a dependency whose registry names
//! no license, and whose homepage is a repository on GitHub, takes the
//! license of that repository.

use vstd::prelude::*;
use vstd::string::{StrSliceExecFns, StringExecFns};
use crate::endpoint::{address_of, address_outcome};
use crate::model::{Dependency, DependencyView, Error};
use crate::text::{
    chars_of, find, first_index, first_occurrence, last_index, occurs_at, same_text,
};

verus! {

/// The license of a repository, as GitHub classifies it.
#[derive(Debug, Clone, PartialEq, Eq)]
pub struct License {
    pub name: String,
}

/// What GitHub states of a repository.
#[derive(Debug, Clone, PartialEq, Eq)]
pub struct Repo {
    pub full_name: String,
    pub license: Option<License>,
    pub html_url: String,
}

/// `text` up to its first `#`: a URL without its fragment.
pub open spec fn without_fragment(text: Seq<char>) -> Seq<char> {
    match text.index_of_first('#') {
        Some(at) => text.take(at),
        None => text,
    }
}

/// `text` without the `/` that ends it, if one does.
pub open spec fn without_trailing_slash(text: Seq<char>) -> Seq<char> {
    if text.len() > 0 && text.last() == '/' {
        text.drop_last()
    } else {
        text
    }
}

/// The owner and the name of the repository that `homepage` points at.
///
/// The fragment and one `/` at the end do not count. The text has to hold
/// `github.com`, and after the first `github.com` at least two `/`: the owner
/// stands between the last two of them, the name after the last.
pub open spec fn repo_of_homepage(homepage: Seq<char>) -> Option<(Seq<char>, Seq<char>)> {
    let text = without_trailing_slash(without_fragment(homepage));
    match first_occurrence(text, "github.com"@) {
        None => None,
        Some(host) => {
            let path = text.skip(host + "github.com"@.len());
            match path.index_of_last('/') {
                None => None,
                Some(last) => match path.take(last).index_of_last('/') {
                    None => None,
                    Some(before) => Some((path.subrange(before + 1, last), path.skip(last + 1))),
                },
            }
        },
    }
}

/// A fragment at the end of a homepage does not change the repository that it
/// points at.
pub proof fn lemma_fragment_ignored(homepage: Seq<char>, fragment: Seq<char>)
    requires
        !homepage.contains('#'),
    ensures
        repo_of_homepage(homepage.push('#') + fragment) == repo_of_homepage(homepage),
{
    let longer = homepage.push('#') + fragment;
    homepage.index_of_first_ensures('#');
    longer.index_of_first_ensures('#');
    assert(longer[homepage.len() as int] == '#');
    assert(longer.contains('#'));
    let at = longer.index_of_first('#')->0;
    if at < homepage.len() {
        assert(homepage[at] == '#');
        assert(homepage.contains('#'));
    }
    assert(at == homepage.len());
    assert(longer.take(at) =~= homepage);
}

/// A `/` at the end of a homepage does not change the repository that it
/// points at.
pub proof fn lemma_trailing_slash_ignored(homepage: Seq<char>)
    requires
        !homepage.contains('#'),
        homepage.len() == 0 || homepage.last() != '/',
    ensures
        repo_of_homepage(homepage.push('/')) == repo_of_homepage(homepage),
{
    let longer = homepage.push('/');
    homepage.index_of_first_ensures('#');
    longer.index_of_first_ensures('#');
    if longer.contains('#') {
        let at = choose|at: int| 0 <= at < longer.len() && longer[at] == '#';
        assert(homepage[at] == '#');
        assert(homepage.contains('#'));
    }
    assert(longer.drop_last() =~= homepage);
}

/// A homepage in which `github.com` does not stand points at no repository.
pub proof fn lemma_other_hosts_not_asked(homepage: Seq<char>)
    requires
        forall|at: int| !occurs_at(homepage, "github.com"@, at),
    ensures
        repo_of_homepage(homepage) is None,
{
    let text = without_trailing_slash(without_fragment(homepage));
    homepage.index_of_first_ensures('#');
    assert(text.len() <= homepage.len());
    assert forall|j: int| 0 <= j < text.len() implies text[j] == homepage[j] by {}
    assert forall|at: int| !occurs_at(text, "github.com"@, at) by {
        if occurs_at(text, "github.com"@, at) {
            assert(occurs_at(homepage, "github.com"@, at));
        }
    }
}

/// The owner and the name of the repository on GitHub that `homepage` points
/// at, if it points at one.
pub fn homepage_to_repo(homepage: &str) -> (found: Option<(&str, &str)>)
    ensures
        match found {
            Some((organisation, repo)) => repo_of_homepage(homepage@) == Some(
                (organisation@, repo@),
            ),
            None => repo_of_homepage(homepage@) is None,
        },
{
    let mut text = chars_of(homepage);
    let cut = match first_index(&text, '#') {
        Some(at) => at,
        None => text.len(),
    };
    proof {
        homepage@.index_of_first_ensures('#');
    }
    let end = if cut > 0 && text[cut - 1] == '/' {
        cut - 1
    } else {
        cut
    };
    text.truncate(end);
    assert(text@ =~= without_trailing_slash(without_fragment(homepage@)));
    let marker = chars_of("github.com");
    let host = match find(&text, &marker) {
        Some(at) => at,
        None => {
            return None;
        },
    };
    let start = host + marker.len();
    let mut path = text.split_off(start);
    assert(path@ =~= homepage@.subrange(start as int, end as int));
    let last = match last_index(&path, '/') {
        Some(at) => at,
        None => {
            return None;
        },
    };
    let ghost whole = path@;
    path.truncate(last);
    let before = match last_index(&path, '/') {
        Some(at) => at,
        None => {
            return None;
        },
    };
    assert(whole.subrange(before + 1, last as int) =~= homepage@.subrange(
        start + before + 1,
        start + last,
    ));
    assert(whole.skip(last + 1) =~= homepage@.subrange(start + last + 1, end as int));
    let organisation = homepage.substring_char(start + before + 1, start + last);
    let repo = homepage.substring_char(start + last + 1, end);
    Some((organisation, repo))
}

/// The text that addresses GitHub's document of a repository.
pub open spec fn request_address(organisation: Seq<char>, repo: Seq<char>) -> Seq<char> {
    "https://api.github.com/repos/"@ + organisation + "/"@ + repo
}

/// The address of the document that GitHub holds of the repository `repo` of
/// `organisation`.
pub fn request_url(organisation: &str, repo: &str) -> (url: Result<String, Error>)
    ensures
        address_outcome(
            request_address(organisation@, repo@),
            "Github API"@,
            organisation@ + "/"@ + repo@,
            url,
        ),
{
    let mut full_name = String::from_str(organisation);
    full_name.append("/");
    full_name.append(repo);
    let mut text = String::from_str("https://api.github.com/repos/");
    text.append(full_name.as_str());
    assert(text@ =~= request_address(organisation@, repo@));
    address_of(text.as_str(), "Github API", full_name.as_str())
}

/// The repository that GitHub is to be asked for on behalf of `dependency`:
/// that of its homepage, and none where a license is known already.
pub open spec fn lookup_for(dependency: DependencyView) -> Option<(Seq<char>, Seq<char>)> {
    if dependency.license is Some {
        None
    } else {
        match dependency.homepage {
            Some(homepage) => repo_of_homepage(homepage),
            None => None,
        }
    }
}

/// The license that `dependency` takes from what GitHub answered: that of
/// the repository, where the dependency has none of its own and GitHub could
/// classify the repository's. GitHub names a license `Other` where it could
/// not.
pub open spec fn adopted_license(dependency: DependencyView, fetched: Repo) -> Option<Seq<char>> {
    match fetched.license {
        Some(license) => if dependency.license is None && license.name@ != "Other"@ {
            Some(license.name@)
        } else {
            None
        },
        None => None,
    }
}

/// `dependency` after GitHub answered `fetched`.
pub open spec fn enrichment(dependency: DependencyView, fetched: Repo) -> DependencyView {
    match adopted_license(dependency, fetched) {
        Some(license) => DependencyView { license: Some(license), ..dependency },
        None => dependency,
    }
}

/// GitHub is never asked on behalf of a dependency that has a license, and
/// whatever it might answer leaves such a dependency as it is.
pub proof fn lemma_licensed_left_alone(dependency: DependencyView, fetched: Repo)
    requires
        dependency.license is Some,
    ensures
        lookup_for(dependency) is None,
        enrichment(dependency, fetched) == dependency,
{
}

/// A dependency without a license takes the license of the repository that
/// GitHub answered with, unless GitHub names it `Other`.
pub proof fn lemma_license_adopted(dependency: DependencyView, repo: Repo)
    requires
        dependency.license is None,
        repo.license is Some,
    ensures
        enrichment(dependency, repo).license == if repo.license->0.name@ == "Other"@ {
            None
        } else {
            Some(repo.license->0.name@)
        },
        enrichment(dependency, repo) == (DependencyView {
            license: enrichment(dependency, repo).license,
            ..dependency
        }),
{
}

/// The owner and the name of the repository to ask GitHub for on behalf of
/// `dependency`, or nothing where GitHub is not to be asked: the dependency
/// has a license, or no homepage, or one that points at no repository on
/// GitHub.
pub fn lookup(dependency: &Dependency) -> (wanted: Option<(&str, &str)>)
    ensures
        match wanted {
            Some((organisation, repo)) => lookup_for(dependency@) == Some((organisation@, repo@)),
            None => lookup_for(dependency@) is None,
        },
        dependency@.license is Some ==> wanted is None,
{
    if dependency.license.is_some() {
        return None;
    }
    match &dependency.homepage {
        Some(homepage) => homepage_to_repo(homepage.as_str()),
        None => None,
    }
}

/// Gives `dependency` the license of the repository that GitHub answered
/// with, where it takes one.
pub fn enrich(dependency: &mut Dependency, fetched: Repo)
    ensures
        final(dependency)@ == enrichment(old(dependency)@, fetched),
{
    if dependency.license.is_none() {
        if let Some(repo_license) = fetched.license {
            if !same_text(repo_license.name.as_str(), "Other") {
                dependency.license = Some(repo_license.name);
            }
        }
    }
}

} // verus!
