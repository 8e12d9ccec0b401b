//! ROS 2 distribution identification.
//!
//! The library is built for one distribution, [`COMPILED_ROS_DISTRO`].
//! Distribution features form a chain: each one enables every older one,
//! so the newest enabled feature names the distribution.

use vstd::prelude::*;
use vstd::std_specs::cmp::{PartialOrdSpec, PartialOrdSpecImpl};
use core::cmp::Ordering;

verus! {

/// A ROS 2 distribution, in release order.
#[non_exhaustive]
#[derive(Copy, Clone, Debug, PartialEq, Eq, Structural, Ord, Hash)]
pub enum RosDistro {
    Galactic,
    Humble,
    Iron,
    Jazzy,
    Kilted,
    Lyrical,
}

impl RosDistro {
    /// Position of the distribution in release order, oldest first.
    pub open spec fn release_index(self) -> nat {
        match self {
            RosDistro::Galactic => 0,
            RosDistro::Humble => 1,
            RosDistro::Iron => 2,
            RosDistro::Jazzy => 3,
            RosDistro::Kilted => 4,
            RosDistro::Lyrical => 5,
        }
    }

    /// The lower-case name, as the `ROS_DISTRO` environment variable holds it.
    pub open spec fn name(self) -> Seq<char> {
        match self {
            RosDistro::Galactic => "galactic"@,
            RosDistro::Humble => "humble"@,
            RosDistro::Iron => "iron"@,
            RosDistro::Jazzy => "jazzy"@,
            RosDistro::Kilted => "kilted"@,
            RosDistro::Lyrical => "lyrical"@,
        }
    }

    /// The lower-case distribution name, matching the `ROS_DISTRO` value
    /// ROS 2 sets when its environment is sourced (e.g. `"jazzy"`).
    pub fn as_str(self) -> (s: &'static str)
        ensures
            s@ == self.name(),
    {
        match self {
            RosDistro::Galactic => "galactic",
            RosDistro::Humble => "humble",
            RosDistro::Iron => "iron",
            RosDistro::Jazzy => "jazzy",
            RosDistro::Kilted => "kilted",
            RosDistro::Lyrical => "lyrical",
        }
    }

    fn release_rank(self) -> (r: u8)
        ensures
            r == self.release_index(),
    {
        match self {
            RosDistro::Galactic => 0,
            RosDistro::Humble => 1,
            RosDistro::Iron => 2,
            RosDistro::Jazzy => 3,
            RosDistro::Kilted => 4,
            RosDistro::Lyrical => 5,
        }
    }
}

impl PartialOrd for RosDistro {
    fn partial_cmp(&self, other: &RosDistro) -> (r: Option<Ordering>) {
        let a = self.release_rank();
        let b = other.release_rank();
        if a < b {
            Some(Ordering::Less)
        } else if a == b {
            Some(Ordering::Equal)
        } else {
            Some(Ordering::Greater)
        }
    }
}

impl PartialOrdSpecImpl for RosDistro {
    open spec fn obeys_partial_cmp_spec() -> bool {
        true
    }

    open spec fn partial_cmp_spec(&self, other: &RosDistro) -> Option<Ordering> {
        if self.release_index() < other.release_index() {
            Some(Ordering::Less)
        } else if self.release_index() == other.release_index() {
            Some(Ordering::Equal)
        } else {
            Some(Ordering::Greater)
        }
    }
}


/// The distribution this library was built for: the newest distribution in
/// the chain of enabled distribution features.
pub const COMPILED_ROS_DISTRO: RosDistro = RosDistro::Jazzy;

/// Which distribution features are enabled. Galactic, the oldest supported
/// distribution, needs no feature.
#[derive(Copy, Clone, Debug, PartialEq, Eq, Structural)]
pub struct DistroFeatures {
    pub humble: bool,
    pub iron: bool,
    pub jazzy: bool,
    pub kilted: bool,
    pub lyrical: bool,
}

impl DistroFeatures {
    /// Whether the feature of `d` is enabled.
    pub open spec fn enables(self, d: RosDistro) -> bool {
        match d {
            RosDistro::Galactic => true,
            RosDistro::Humble => self.humble,
            RosDistro::Iron => self.iron,
            RosDistro::Jazzy => self.jazzy,
            RosDistro::Kilted => self.kilted,
            RosDistro::Lyrical => self.lyrical,
        }
    }

    /// The features that selecting `d` turns on: its own and, through the
    /// chain, those of every older distribution.
    pub open spec fn selecting(d: RosDistro) -> DistroFeatures {
        DistroFeatures {
            humble: d.release_index() >= 1,
            iron: d.release_index() >= 2,
            jazzy: d.release_index() >= 3,
            kilted: d.release_index() >= 4,
            lyrical: d.release_index() >= 5,
        }
    }

    /// `d` is the newest distribution whose feature is enabled.
    pub open spec fn newest_enabled_is(self, d: RosDistro) -> bool {
        &&& self.enables(d)
        &&& forall|e: RosDistro| #[trigger] e.release_index() > d.release_index() ==> !self.enables(e)
    }
}

/// The distribution that a build with `features` is for: the newest one whose
/// feature is enabled, Galactic when none is.
pub fn compiled_distro(features: DistroFeatures) -> (d: RosDistro)
    ensures
        features.newest_enabled_is(d),
{
    if features.lyrical {
        RosDistro::Lyrical
    } else if features.kilted {
        RosDistro::Kilted
    } else if features.jazzy {
        RosDistro::Jazzy
    } else if features.iron {
        RosDistro::Iron
    } else if features.humble {
        RosDistro::Humble
    } else {
        RosDistro::Galactic
    }
}

/// Selecting a distribution's feature builds the library for that
/// distribution.
pub proof fn lemma_selecting_builds_for(d: RosDistro)
    ensures
        DistroFeatures::selecting(d).newest_enabled_is(d),
{
}

/// At most one distribution is the newest enabled one.
pub proof fn lemma_newest_enabled_unique(f: DistroFeatures, d: RosDistro, e: RosDistro)
    requires
        f.newest_enabled_is(d),
        f.newest_enabled_is(e),
    ensures
        d == e,
{
    assert(d.release_index() <= e.release_index());
    assert(e.release_index() <= d.release_index());
}

/// Comparing two distributions compares their release order.
pub proof fn lemma_order_is_release_order(a: RosDistro, b: RosDistro)
    ensures
        (PartialOrdSpec::partial_cmp_spec(&a, &b) == Some(Ordering::Less)) <==> a.release_index() < b.release_index(),
        (PartialOrdSpec::partial_cmp_spec(&a, &b) == Some(Ordering::Equal)) <==> a == b,
        (PartialOrdSpec::partial_cmp_spec(&a, &b) == Some(Ordering::Greater)) <==> a.release_index() > b.release_index(),
{
}

/// How the `ROS_DISTRO` environment variable compares with the distribution
/// the library was built for.
#[derive(Copy, Clone, Debug, PartialEq, Eq, Structural)]
pub enum DistroEnvStatus {
    /// The variable is not set: whether the build matches cannot be told.
    Unset,
    /// The variable names the distribution the library was built for.
    Matches,
    /// The variable is `rolling`, which tracks the newest distribution.
    Rolling,
    /// The variable names another distribution: likely wire-incompatible.
    Mismatch,
}

/// The severity with which a [`DistroEnvReport`] is logged.
#[derive(Copy, Clone, Debug, PartialEq, Eq, Structural)]
pub enum ReportLevel {
    Info,
    Warn,
    Error,
}

/// The outcome of comparing `ROS_DISTRO` with the build: what to log, and how.
pub struct DistroEnvReport {
    pub status: DistroEnvStatus,
    pub level: ReportLevel,
    pub message: String,
}

pub open spec fn distro_env_status(env: Option<Seq<char>>, built: RosDistro) -> DistroEnvStatus {
    match env {
        None => DistroEnvStatus::Unset,
        Some(v) => if v == built.name() {
            DistroEnvStatus::Matches
        } else if v == "rolling"@ {
            DistroEnvStatus::Rolling
        } else {
            DistroEnvStatus::Mismatch
        },
    }
}

pub open spec fn distro_env_level(status: DistroEnvStatus) -> ReportLevel {
    match status {
        DistroEnvStatus::Unset => ReportLevel::Warn,
        DistroEnvStatus::Matches => ReportLevel::Info,
        DistroEnvStatus::Rolling => ReportLevel::Warn,
        DistroEnvStatus::Mismatch => ReportLevel::Error,
    }
}

pub open spec fn distro_env_message(env: Option<Seq<char>>, built: RosDistro) -> Seq<char> {
    match env {
        None => "ROS_DISTRO is not set; ros2-client was built for '"@ + built.name() + "'."@,
        Some(v) => if v == built.name() {
            "ROS_DISTRO='"@ + v + "' matches the ros2-client build."@
        } else if v == "rolling"@ {
            "ROS_DISTRO='rolling'; ros2-client was built for '"@ + built.name()
                + "'. Assuming compatible, but rolling may have diverged."@
        } else {
            "ROS_DISTRO='"@ + v + "' but ros2-client was built for '"@ + built.name()
                + "'. These may be incompatible (e.g. different Gid format); rebuild with --features "@
                + v + "."@
        },
    }
}

/// Compares the value of the `ROS_DISTRO` environment variable (`None` when it
/// is unset) with the distribution `built`, and says what to log:
///
/// * unset: a warning (the build cannot be matched against the runtime),
/// * equal: info (all good),
/// * `"rolling"`: a warning (rolling tracks the newest, assumed compatible),
/// * anything else: an error (likely wire-incompatible, e.g. wrong Gid format).
pub fn ros_distro_env_report(env: Option<String>, built: RosDistro) -> (r: DistroEnvReport)
    ensures
        r.status == distro_env_status(env.deep_view(), built),
        r.level == distro_env_level(r.status),
        r.message@ == distro_env_message(env.deep_view(), built),
{
    let built_name = built.as_str();
    match env {
        None => {
            let mut m = "ROS_DISTRO is not set; ros2-client was built for '".to_owned();
            m.append(built_name);
            m.append("'.");
            DistroEnvReport { status: DistroEnvStatus::Unset, level: ReportLevel::Warn, message: m }
        },
        Some(v) => {
            let built_owned = built_name.to_owned();
            let rolling = "rolling".to_owned();
            if v == built_owned {
                let mut m = "ROS_DISTRO='".to_owned();
                m.append(v.as_str());
                m.append("' matches the ros2-client build.");
                DistroEnvReport {
                    status: DistroEnvStatus::Matches,
                    level: ReportLevel::Info,
                    message: m,
                }
            } else if v == rolling {
                let mut m = "ROS_DISTRO='rolling'; ros2-client was built for '".to_owned();
                m.append(built_name);
                m.append("'. Assuming compatible, but rolling may have diverged.");
                DistroEnvReport {
                    status: DistroEnvStatus::Rolling,
                    level: ReportLevel::Warn,
                    message: m,
                }
            } else {
                let mut m = "ROS_DISTRO='".to_owned();
                m.append(v.as_str());
                m.append("' but ros2-client was built for '");
                m.append(built_name);
                m.append(
                    "'. These may be incompatible (e.g. different Gid format); rebuild with --features ",
                );
                m.append(v.as_str());
                m.append(".");
                DistroEnvReport {
                    status: DistroEnvStatus::Mismatch,
                    level: ReportLevel::Error,
                    message: m,
                }
            }
        },
    }
}

/// Distinct distributions have distinct names, and none is named `rolling`.
pub proof fn lemma_names_distinct(a: RosDistro, b: RosDistro)
    ensures
        a.name() == b.name() <==> a == b,
        a.name() != "rolling"@,
{
    reveal_strlit("galactic");
    reveal_strlit("humble");
    reveal_strlit("iron");
    reveal_strlit("jazzy");
    reveal_strlit("kilted");
    reveal_strlit("lyrical");
    reveal_strlit("rolling");
    if a != b {
        assert(a.name()[0] != b.name()[0] || a.name()[1] != b.name()[1] || a.name().len() != b.name().len());
    }
    assert(a.name()[0] != "rolling"@[0]);
}

/// Run in the environment of the distribution it was built for, the library
/// reports a match; run in that of another distribution, it reports an error.
pub proof fn lemma_env_of_distro_is_checked(env_distro: RosDistro, built: RosDistro)
    ensures
        distro_env_status(Some(env_distro.name()), built) == (if env_distro == built {
            DistroEnvStatus::Matches
        } else {
            DistroEnvStatus::Mismatch
        }),
        distro_env_level(distro_env_status(Some(env_distro.name()), built)) == (if env_distro
            == built {
            ReportLevel::Info
        } else {
            ReportLevel::Error
        }),
{
    lemma_names_distinct(env_distro, built);
}

/// `a` comes before `b` in dictionary order of characters.
pub open spec fn text_less(a: Seq<char>, b: Seq<char>) -> bool
    decreases a.len(),
{
    if b.len() == 0 {
        false
    } else if a.len() == 0 {
        true
    } else if a[0] != b[0] {
        (a[0] as int) < (b[0] as int)
    } else {
        text_less(a.drop_first(), b.drop_first())
    }
}

/// Release order is the alphabetical order of the distribution names.
pub proof fn lemma_release_order_is_name_order(a: RosDistro, b: RosDistro)
    ensures
        a.release_index() < b.release_index() <==> text_less(a.name(), b.name()),
{
    reveal_strlit("galactic");
    reveal_strlit("humble");
    reveal_strlit("iron");
    reveal_strlit("jazzy");
    reveal_strlit("kilted");
    reveal_strlit("lyrical");
    if a == b {
        assert(!text_less(a.name(), a.name())) by {
            lemma_text_less_irreflexive(a.name());
        }
    }
}

proof fn lemma_text_less_irreflexive(s: Seq<char>)
    ensures
        !text_less(s, s),
    decreases s.len(),
{
    if s.len() > 0 {
        lemma_text_less_irreflexive(s.drop_first());
    }
}

/// `ROS_DISTRO=rolling` is assumed compatible, with a warning, whatever
/// distribution the library was built for; an unset variable is warned of
/// too.
pub proof fn lemma_rolling_is_a_warning_for_every_build(built: RosDistro)
    ensures
        distro_env_status(Some("rolling"@), built) == DistroEnvStatus::Rolling,
        distro_env_level(distro_env_status(Some("rolling"@), built)) == ReportLevel::Warn,
        distro_env_status(None, built) == DistroEnvStatus::Unset,
        distro_env_level(distro_env_status(None, built)) == ReportLevel::Warn,
{
    lemma_names_distinct(built, built);
}

} // verus!
