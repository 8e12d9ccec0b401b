use ros2_client::distributions::{
    compiled_distro, ros_distro_env_report, DistroEnvStatus, DistroFeatures, ReportLevel,
    RosDistro, COMPILED_ROS_DISTRO,
};

fn features(humble: bool, iron: bool, jazzy: bool, kilted: bool, lyrical: bool) -> DistroFeatures {
    DistroFeatures { humble, iron, jazzy, kilted, lyrical }
}

#[test]
fn as_str_gives_lower_case_names() {
    assert_eq!(RosDistro::Galactic.as_str(), "galactic");
    assert_eq!(RosDistro::Humble.as_str(), "humble");
    assert_eq!(RosDistro::Iron.as_str(), "iron");
    assert_eq!(RosDistro::Jazzy.as_str(), "jazzy");
    assert_eq!(RosDistro::Kilted.as_str(), "kilted");
    assert_eq!(RosDistro::Lyrical.as_str(), "lyrical");
}

#[test]
fn comparisons_follow_release_order() {
    let all = [
        RosDistro::Galactic,
        RosDistro::Humble,
        RosDistro::Iron,
        RosDistro::Jazzy,
        RosDistro::Kilted,
        RosDistro::Lyrical,
    ];
    for (i, a) in all.iter().enumerate() {
        for (j, b) in all.iter().enumerate() {
            assert_eq!(a < b, i < j);
            assert_eq!(a >= b, i >= j);
            assert_eq!(a.partial_cmp(b), i.partial_cmp(&j));
            assert_eq!(a.cmp(b), i.cmp(&j));
        }
    }
    assert!(RosDistro::Humble < RosDistro::Iron);
    assert!(RosDistro::Jazzy >= RosDistro::Iron);
}

#[test]
fn newest_enabled_feature_names_the_distribution() {
    assert_eq!(compiled_distro(features(false, false, false, false, false)), RosDistro::Galactic);
    assert_eq!(compiled_distro(features(true, false, false, false, false)), RosDistro::Humble);
    assert_eq!(compiled_distro(features(true, true, false, false, false)), RosDistro::Iron);
    assert_eq!(compiled_distro(features(true, true, true, false, false)), RosDistro::Jazzy);
    assert_eq!(compiled_distro(features(true, true, true, true, false)), RosDistro::Kilted);
    assert_eq!(compiled_distro(features(true, true, true, true, true)), RosDistro::Lyrical);
    // only the newest enabled one counts
    assert_eq!(compiled_distro(features(false, false, true, false, false)), RosDistro::Jazzy);
    assert_eq!(compiled_distro(features(true, false, false, false, true)), RosDistro::Lyrical);
}

#[test]
fn library_is_built_for_jazzy() {
    assert_eq!(COMPILED_ROS_DISTRO, RosDistro::Jazzy);
    assert_eq!(compiled_distro(features(true, true, true, false, false)), COMPILED_ROS_DISTRO);
}

#[test]
fn unset_ros_distro_is_a_warning() {
    let r = ros_distro_env_report(None, RosDistro::Jazzy);
    assert_eq!(r.status, DistroEnvStatus::Unset);
    assert_eq!(r.level, ReportLevel::Warn);
    assert_eq!(r.message, "ROS_DISTRO is not set; ros2-client was built for 'jazzy'.");
}

#[test]
fn matching_ros_distro_is_info() {
    let r = ros_distro_env_report(Some("jazzy".to_string()), RosDistro::Jazzy);
    assert_eq!(r.status, DistroEnvStatus::Matches);
    assert_eq!(r.level, ReportLevel::Info);
    assert_eq!(r.message, "ROS_DISTRO='jazzy' matches the ros2-client build.");
}

#[test]
fn rolling_ros_distro_is_a_warning() {
    let r = ros_distro_env_report(Some("rolling".to_string()), RosDistro::Kilted);
    assert_eq!(r.status, DistroEnvStatus::Rolling);
    assert_eq!(r.level, ReportLevel::Warn);
    assert_eq!(
        r.message,
        "ROS_DISTRO='rolling'; ros2-client was built for 'kilted'. Assuming compatible, but \
         rolling may have diverged."
    );
}

#[test]
fn other_ros_distro_is_an_error() {
    let r = ros_distro_env_report(Some("humble".to_string()), RosDistro::Jazzy);
    assert_eq!(r.status, DistroEnvStatus::Mismatch);
    assert_eq!(r.level, ReportLevel::Error);
    assert_eq!(
        r.message,
        "ROS_DISTRO='humble' but ros2-client was built for 'jazzy'. These may be incompatible \
         (e.g. different Gid format); rebuild with --features humble."
    );
}
