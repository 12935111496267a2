//! The decisions of an update pass over one image row: what the running
//! version is, which tag is the latest, which references to resolve to
//! digests, and what is written back.
use vstd::prelude::*;
use vstd::string::*;
use crate::records::{opt_view, clone_opt, Computed, Image, ImageView};
use crate::reference::{parts_present, reference_of, sep, whole_of, ImageRef, RefView, ReferenceError};
use crate::version::{
    latest_index, pattern_valid, req_valid, select_latest, tags_view, Pattern, Requirement,
    VersionParser, VERSION_REGEX,
};

verus! {

/// The version of the running image: the tag of its reference.
pub trait ImageVersion {
    /// The reference of the running image.
    spec fn running_reference(&self) -> Seq<char>;

    /// The tag of the running reference; `None` for a reference pinned by
    /// digest alone.
    fn image_version(&self) -> (r: Result<Option<String>, ReferenceError>)
        ensures
            match reference_of(self.running_reference()) {
                None => r is Err,
                Some(x) => r matches Ok(v) && opt_view(v) == x.tag,
            },
    ;
}

impl ImageVersion for Image {
    open spec fn running_reference(&self) -> Seq<char> {
        self.image@
    }

    fn image_version(&self) -> (r: Result<Option<String>, ReferenceError>) {
        match ImageRef::parse(self.image.as_str()) {
            Ok(x) => Ok(clone_opt(&x.tag)),
            Err(e) => Err(e),
        }
    }
}

/// Why no latest version could be chosen.
#[derive(Clone, Copy, Debug, PartialEq, Eq, Structural)]
pub enum VersionError {
    /// The version requirement does not parse.
    InvalidRequirement,
    /// The built-in version pattern does not compile.
    InvalidVersionPattern,
    /// The pattern that extracts a version from a tag does not compile.
    InvalidSelector,
}

/// The outcome of choosing the latest of `tags` under a requirement and a
/// selector pattern.
pub open spec fn latest_outcome(req: Seq<char>, selector: Seq<char>, tags: Seq<String>) -> Result<Option<Seq<char>>, VersionError> {
    if !req_valid(req) {
        Err(VersionError::InvalidRequirement)
    } else if !pattern_valid(VERSION_REGEX@) {
        Err(VersionError::InvalidVersionPattern)
    } else if !pattern_valid(selector) {
        Err(VersionError::InvalidSelector)
    } else {
        match latest_index(selector, req, tags_view(tags)) {
            None => Ok(None),
            Some(i) => Ok(Some(tags[i]@)),
        }
    }
}

pub open spec fn outcome_view(r: Result<Option<String>, VersionError>) -> Result<Option<Seq<char>>, VersionError> {
    match r {
        Ok(v) => Ok(opt_view(v)),
        Err(e) => Err(e),
    }
}

/// The latest tag of an image among the tags its registry lists.
pub trait LatestImageVersion {
    /// The version requirement and the selector pattern.
    spec fn version_policy(&self) -> (Seq<char>, Seq<char>);

    /// The tag with the greatest version that satisfies the requirement,
    /// the first of equal versions winning.
    fn latest_image_version(&self, tags: &Vec<String>) -> (r: Result<Option<String>, VersionError>)
        ensures
            outcome_view(r) == latest_outcome(self.version_policy().0, self.version_policy().1, tags@),
    ;
}

impl LatestImageVersion for Image {
    open spec fn version_policy(&self) -> (Seq<char>, Seq<char>) {
        (self.latest_version_req@, self.latest_version_regex@)
    }

    fn latest_image_version(&self, tags: &Vec<String>) -> (r: Result<Option<String>, VersionError>) {
        let req = match Requirement::parse(self.latest_version_req.as_str()) {
            Some(req) => req,
            None => {
                return Err(VersionError::InvalidRequirement);
            },
        };
        let vp = match VersionParser::new(req) {
            Some(vp) => vp,
            None => {
                return Err(VersionError::InvalidVersionPattern);
            },
        };
        let selector = match Pattern::new(self.latest_version_regex.as_str()) {
            Some(p) => p,
            None => {
                return Err(VersionError::InvalidSelector);
            },
        };
        Ok(select_latest(tags, &selector, &vp))
    }
}

/// Whether a digest is already known or must be fetched.
#[derive(Clone, Debug)]
pub enum DigestLookup {
    Known(String),
    Fetch,
}

/// The references of one digest resolution: the running image and the
/// tracked tag in the same repository.
#[derive(Clone, Debug)]
pub struct DigestPlan {
    pub running: ImageRef,
    pub latest: ImageRef,
}

/// The reference pinned to a digest, as text.
pub open spec fn pinned(r: RefView, digest: Seq<char>) -> Seq<char> {
    whole_of(RefView { registry: r.registry, repository: r.repository, tag: None, digest: Some(digest) })
}

/// A reference with registry and repository, pinned to a digest, reads
/// `registry/repository@digest`.
pub proof fn lemma_pinned_text(r: RefView, digest: Seq<char>)
    requires
        parts_present(r),
    ensures
        pinned(r, digest) == r.registry + seq!['/'] + r.repository + seq!['@'] + digest,
{
    assert(sep(true, '/') =~= seq!['/']);
    assert(sep(true, '@') =~= seq!['@']);
}

impl DigestPlan {
    /// The running digest needs no registry call where the reference
    /// carries one.
    pub fn running_lookup(&self) -> (r: DigestLookup)
        ensures
            match self.running@.digest {
                Some(d) => r matches DigestLookup::Known(x) && x@ == d,
                None => r is Fetch,
            },
    {
        match &self.running.digest {
            Some(d) => DigestLookup::Known(d.clone()),
            None => DigestLookup::Fetch,
        }
    }

    /// The resolved running reference and the latest reference, both
    /// pinned by digest in the running image's repository.
    pub fn finish(&self, running_digest: &str, latest_digest: &str) -> (r: (String, String))
        ensures
            r.0@ == pinned(self.running@, running_digest@),
            r.1@ == pinned(self.running@, latest_digest@),
    {
        let a = self.running.with_digest(running_digest).whole();
        let b = self.running.with_digest(latest_digest).whole();
        (a, b)
    }
}

/// The digest resolution of an image row for a tag.
pub trait ImageIds {
    /// The reference of the running image, with its digest.
    spec fn running_id(&self) -> Seq<char>;

    /// The references to resolve: the running one, and `tag` in its
    /// repository.
    fn image_ids(&self, tag: &str) -> (r: Result<DigestPlan, ReferenceError>)
        ensures
            match reference_of(self.running_id()) {
                None => r is Err,
                Some(x) => r matches Ok(p) && p.running@ == x && parts_present(x) && p.latest@ == (RefView {
                    registry: x.registry,
                    repository: x.repository,
                    tag: Some(tag@),
                    digest: None,
                }),
            },
    ;
}

impl ImageIds for Image {
    open spec fn running_id(&self) -> Seq<char> {
        self.image_id@
    }

    fn image_ids(&self, tag: &str) -> (r: Result<DigestPlan, ReferenceError>) {
        match ImageRef::parse(self.image_id.as_str()) {
            Ok(running) => {
                let latest = running.with_tag(tag);
                Ok(DigestPlan { running, latest })
            },
            Err(e) => Err(e),
        }
    }
}

/// Why part of an update failed.
#[derive(Clone, Copy, Debug, PartialEq, Eq, Structural)]
pub enum UpdateError {
    Reference,
    Version,
    Registry,
}

pub open spec fn ok_opt_view(r: Result<Option<String>, UpdateError>) -> Option<Seq<char>> {
    match r {
        Ok(v) => opt_view(v),
        Err(_) => None,
    }
}

/// The computed fields written after a pass where every step succeeded.
pub open spec fn computed_after(
    version: Option<Seq<char>>,
    latest_version: Option<Seq<char>>,
    ids: (Seq<char>, Seq<char>),
    now: u64,
) -> Computed {
    Computed {
        resolved_image_id: Some(ids.0),
        latest_image_id: Some(ids.1),
        version,
        latest_version,
        last_checked: Some(now),
    }
}

impl Image {
    /// The tag to resolve again when resolving `latest_tag` failed: the
    /// latest version, where one was found.
    pub fn retry_tag(
        first: &Result<(String, String), UpdateError>,
        latest_version: &Result<Option<String>, UpdateError>,
    ) -> (r: Option<String>)
        ensures
            r is Some <==> first is Err && ok_opt_view(*latest_version) is Some,
            r matches Some(t) ==> Some(t@) == ok_opt_view(*latest_version),
    {
        match first {
            Ok(_) => None,
            Err(_) => match latest_version {
                Ok(Some(v)) => Some(v.clone()),
                _ => None,
            },
        }
    }

    /// The row after a pass: every computed field and the time of the check
    /// where every step succeeded, and `None`, leaving the row as it was,
    /// where one failed.
    pub fn with_computation(
        &self,
        version: &Result<Option<String>, UpdateError>,
        latest_version: &Result<Option<String>, UpdateError>,
        ids: &Result<(String, String), UpdateError>,
        now: u64,
    ) -> (r: Option<Image>)
        ensures
            r is Some <==> version is Ok && latest_version is Ok && ids is Ok,
            r matches Some(i) ==> i@ == (ImageView {
                key: self@.key,
                computed: computed_after(
                    ok_opt_view(*version),
                    ok_opt_view(*latest_version),
                    (ids->Ok_0.0@, ids->Ok_0.1@),
                    now,
                ),
            }),
    {
        match (version, latest_version, ids) {
            (Ok(v), Ok(lv), Ok((resolved, latest))) => Some(Image {
                image: self.image.clone(),
                image_id: self.image_id.clone(),
                latest_tag: self.latest_tag.clone(),
                latest_version_req: self.latest_version_req.clone(),
                latest_version_regex: self.latest_version_regex.clone(),
                resolved_image_id: Some(resolved.clone()),
                latest_image_id: Some(latest.clone()),
                version: clone_opt(v),
                latest_version: clone_opt(lv),
                last_checked: Some(now),
            }),
            _ => None,
        }
    }
}

/// Where the update of an image row stands.
#[derive(Clone, Copy, Debug, PartialEq, Eq, Structural)]
pub enum Stage {
    /// Listing the tags of the running reference's repository.
    FirstListing,
    /// That listing was empty: listing the tags of the image reference.
    FallbackListing,
    /// Resolving the digests for the row's `latest_tag`.
    Resolving,
    /// That failed: resolving the digests for the latest version instead.
    Retrying,
    /// Nothing left to do.
    Finished,
}

/// What the registry answered.
#[derive(Debug)]
pub enum RowEvent {
    /// The tags of a repository, or why they could not be listed.
    Tags(Result<Vec<String>, UpdateError>),
    /// The resolved running and latest references, or why they could not
    /// be resolved.
    Ids(Result<(String, String), UpdateError>),
}

/// What to do next for an image row.
#[derive(Clone, Debug)]
pub enum RowAction {
    /// List every tag of the repository of this reference.
    ListTags(String),
    /// Resolve the running reference and this tag to digests (see
    /// `ImageIds`).
    ResolveIds(String),
    /// Write this row back.
    Write(Image),
    /// Leave the row as it is.
    Keep,
}

/// The update of one image row, one registry answer at a time.
#[derive(Debug)]
pub struct RowUpdate {
    pub image: Image,
    pub version: Result<Option<String>, UpdateError>,
    pub latest_version: Result<Option<String>, UpdateError>,
    pub stage: Stage,
    pub now: u64,
}

/// The order of the stages: every answer moves an unfinished update to a
/// later one, so a row takes at most four registry answers.
pub open spec fn stage_rank(s: Stage) -> int {
    match s {
        Stage::FirstListing => 0,
        Stage::FallbackListing => 1,
        Stage::Resolving => 2,
        Stage::Retrying => 3,
        Stage::Finished => 4,
    }
}

/// The action that ends an update: writing every computed field where
/// every step succeeded, else keeping the row.
pub open spec fn final_action(u: RowUpdate, ids: Result<(String, String), UpdateError>, a: RowAction) -> bool {
    if u.version is Ok && u.latest_version is Ok && ids is Ok {
        a matches RowAction::Write(i) && i@ == (ImageView {
            key: u.image@.key,
            computed: computed_after(
                ok_opt_view(u.version),
                ok_opt_view(u.latest_version),
                (ids->Ok_0.0@, ids->Ok_0.1@),
                u.now,
            ),
        })
    } else {
        a is Keep
    }
}

/// Whether the requirement, the version pattern and the selector pattern
/// of a row all parse, so that a latest version can be chosen at all.
pub open spec fn policy_valid(image: Image) -> bool {
    req_valid(image.latest_version_req@) && pattern_valid(VERSION_REGEX@) && pattern_valid(image.latest_version_regex@)
}

/// The running version: the tag of the image reference, or a failed step
/// where the reference does not parse.
pub open spec fn version_outcome(r: Result<Option<String>, UpdateError>, image: Image) -> bool {
    match reference_of(image.image@) {
        None => r == Err::<Option<String>, UpdateError>(UpdateError::Reference),
        Some(x) => r matches Ok(v) && opt_view(v) == x.tag,
    }
}

/// The latest version chosen from listed tags, a policy that does not parse
/// counting as a failed step.
pub open spec fn latest_from_tags(image: Image, tags: Seq<String>, r: Result<Option<String>, UpdateError>) -> bool {
    match latest_outcome(image.latest_version_req@, image.latest_version_regex@, tags) {
        Ok(v) => r is Ok && ok_opt_view(r) == v,
        Err(_) => r == Err::<Option<String>, UpdateError>(UpdateError::Version),
    }
}

impl RowUpdate {
    fn finish(&mut self, ids: &Result<(String, String), UpdateError>) -> (r: RowAction)
        ensures
            final_action(*old(self), *ids, r),
            final(self).stage == Stage::Finished,
            final(self).image == old(self).image,
            final(self).version == old(self).version,
            final(self).latest_version == old(self).latest_version,
            final(self).now == old(self).now,
    {
        self.stage = Stage::Finished;
        match self.image.with_computation(&self.version, &self.latest_version, ids, self.now) {
            Some(i) => RowAction::Write(i),
            None => RowAction::Keep,
        }
    }

    /// Starts the update of a row at time `now`: the running version is
    /// read from the image reference. Where the row's requirement or
    /// patterns do not parse the update ends at once, keeping the row and
    /// asking nothing of the registry; otherwise the first action lists the
    /// tags of the running reference's repository.
    pub fn start(image: &Image, now: u64) -> (r: (RowUpdate, RowAction))
        ensures
            r.0.image@ == image@,
            r.0.now == now,
            version_outcome(r.0.version, r.0.image),
            policy_valid(*image) ==> r.0.stage == Stage::FirstListing && (r.1 matches RowAction::ListTags(s) && s@ == image.image_id@),
            !policy_valid(*image) ==> r.0.stage == Stage::Finished && r.1 is Keep,
    {
        let version = match image.image_version() {
            Ok(v) => Ok(v),
            Err(_) => Err(UpdateError::Reference),
        };
        let valid = match Requirement::parse(image.latest_version_req.as_str()) {
            None => false,
            Some(req) => VersionParser::new(req).is_some() && Pattern::new(image.latest_version_regex.as_str()).is_some(),
        };
        let mut u = RowUpdate {
            image: image.duplicate(),
            version,
            latest_version: Ok(None),
            stage: Stage::FirstListing,
            now,
        };
        if valid {
            (u, RowAction::ListTags(image.image_id.clone()))
        } else {
            u.stage = Stage::Finished;
            (u, RowAction::Keep)
        }
    }

    /// Takes in the registry's answer to the last action and says what to
    /// do next. An empty first listing moves on to the image reference's
    /// repository; a failed listing leaves no latest version and counts as
    /// a failed step; a failed resolution of `latest_tag` is retried once
    /// with the latest version where one was found. An answer that the
    /// stage does not wait for ends the update and keeps the row.
    pub fn step(&mut self, event: RowEvent) -> (r: RowAction)
        ensures
            final(self).image == old(self).image,
            final(self).version == old(self).version,
            final(self).now == old(self).now,
            old(self).stage != Stage::Finished ==> stage_rank(final(self).stage) > stage_rank(old(self).stage),
            (r is Write || r is Keep) <==> final(self).stage == Stage::Finished,
            match (old(self).stage, event) {
                (Stage::FirstListing, RowEvent::Tags(Ok(t))) if t@.len() == 0 => {
                    &&& final(self).stage == Stage::FallbackListing
                    &&& final(self).latest_version == old(self).latest_version
                    &&& r matches RowAction::ListTags(s) && s@ == old(self).image.image@
                },
                (Stage::FirstListing, RowEvent::Tags(Ok(t))) | (Stage::FallbackListing, RowEvent::Tags(Ok(t))) => {
                    &&& final(self).stage == Stage::Resolving
                    &&& latest_from_tags(old(self).image, t@, final(self).latest_version)
                    &&& r matches RowAction::ResolveIds(s) && s@ == old(self).image.latest_tag@
                },
                (Stage::FirstListing, RowEvent::Tags(Err(e))) | (Stage::FallbackListing, RowEvent::Tags(Err(e))) => {
                    &&& final(self).stage == Stage::Resolving
                    &&& final(self).latest_version == Err::<Option<String>, UpdateError>(e)
                    &&& r matches RowAction::ResolveIds(s) && s@ == old(self).image.latest_tag@
                },
                (Stage::Resolving, RowEvent::Ids(Err(_))) if ok_opt_view(old(self).latest_version) is Some => {
                    &&& final(self).stage == Stage::Retrying
                    &&& final(self).latest_version == old(self).latest_version
                    &&& r matches RowAction::ResolveIds(s) && Some(s@) == ok_opt_view(old(self).latest_version)
                },
                (Stage::Resolving, RowEvent::Ids(ids)) | (Stage::Retrying, RowEvent::Ids(ids)) => {
                    &&& final(self).stage == Stage::Finished
                    &&& final(self).latest_version == old(self).latest_version
                    &&& final_action(*old(self), ids, r)
                },
                _ => {
                    &&& final(self).stage == Stage::Finished
                    &&& final(self).latest_version == old(self).latest_version
                    &&& r is Keep
                },
            },
    {
        match (self.stage, event) {
            (Stage::FirstListing, RowEvent::Tags(Ok(t))) if t.len() == 0 => {
                self.stage = Stage::FallbackListing;
                RowAction::ListTags(self.image.image.clone())
            },
            (Stage::FirstListing, RowEvent::Tags(Ok(t))) | (Stage::FallbackListing, RowEvent::Tags(Ok(t))) => {
                self.latest_version = match self.image.latest_image_version(&t) {
                    Ok(v) => Ok(v),
                    Err(_) => Err(UpdateError::Version),
                };
                self.stage = Stage::Resolving;
                RowAction::ResolveIds(self.image.latest_tag.clone())
            },
            (Stage::FirstListing, RowEvent::Tags(Err(e))) | (Stage::FallbackListing, RowEvent::Tags(Err(e))) => {
                self.latest_version = Err(e);
                self.stage = Stage::Resolving;
                RowAction::ResolveIds(self.image.latest_tag.clone())
            },
            (Stage::Resolving, RowEvent::Ids(ids)) => {
                match Image::retry_tag(&ids, &self.latest_version) {
                    Some(tag) => {
                        self.stage = Stage::Retrying;
                        RowAction::ResolveIds(tag)
                    },
                    None => self.finish(&ids),
                }
            },
            (Stage::Retrying, RowEvent::Ids(ids)) => self.finish(&ids),
            _ => {
                self.stage = Stage::Finished;
                RowAction::Keep
            },
        }
    }
}

} // verus!
