//! The curated list of older releases that can be installed and pinned.
use vstd::prelude::*;

verus! {

/// One curated release.
pub struct ArchiveVersion {
    pub persona: String,
    pub version: String,
    pub description: String,
    pub features: Vec<String>,
    pub download_url: String,
    pub risk_level: String,
}

/// `a` holds exactly the given values.
pub open spec fn has_fields(
    a: ArchiveVersion,
    persona: Seq<char>,
    version: Seq<char>,
    description: Seq<char>,
    features: Seq<Seq<char>>,
    download_url: Seq<char>,
    risk_level: Seq<char>,
) -> bool {
    &&& a.persona@ == persona
    &&& a.version@ == version
    &&& a.description@ == description
    &&& a.features.deep_view() == features
    &&& a.download_url@ == download_url
    &&& a.risk_level@ == risk_level
}

fn archive_version(
    persona: &str,
    version: &str,
    description: &str,
    f1: &str,
    f2: &str,
    f3: &str,
    download_url: &str,
    risk_level: &str,
) -> (r: ArchiveVersion)
    ensures
        has_fields(
            r,
            persona@,
            version@,
            description@,
            seq![f1@, f2@, f3@],
            download_url@,
            risk_level@,
        ),
{
    let mut features: Vec<String> = Vec::new();
    features.push(String::from_str(f1));
    features.push(String::from_str(f2));
    features.push(String::from_str(f3));
    proof {
        assert(features.deep_view() =~= seq![f1@, f2@, f3@]);
    }
    ArchiveVersion {
        persona: String::from_str(persona),
        version: String::from_str(version),
        description: String::from_str(description),
        features,
        download_url: String::from_str(download_url),
        risk_level: String::from_str(risk_level),
    }
}

/// The curated releases, oldest first.
pub fn get_archive_versions() -> (r: Vec<ArchiveVersion>)
    ensures
        r.len() == 6,
        has_fields(
            r@[0],
            "Offline Purist"@,
            "1.5.0"@,
            "Zero cloud dependencies. Unrestricted 4K export."@,
            seq!["Clean UI"@, "Offline Only"@, "No Nags"@],
            "https://lf16-capcut.faceulv.com/obj/capcutpc-packages-us/packages/CapCut_1_5_0_230_capcutpc_0.exe"@,
            "Low"@,
        ),
        has_fields(
            r@[1],
            "Audio Engineer"@,
            "2.5.4"@,
            "Multi-track audio & stable mixer. The golden era."@,
            seq!["Multi-Track"@, "Audio Mixer"@, "Keyframes"@],
            "https://lf16-capcut.faceulv.com/obj/capcutpc-packages-us/packages/CapCut_2_5_4_810_capcutpc_0_creatortool.exe"@,
            "Low"@,
        ),
        has_fields(
            r@[2],
            "Classic Pro"@,
            "2.9.0"@,
            "Most free features before the generic paywalls."@,
            seq!["Max Free Features"@, "Stable"@, "Legacy UI"@],
            "https://lf16-capcut.faceulv.com/obj/capcutpc-packages-us/packages/CapCut_2_9_0_966_capcutpc_0_creatortool.exe"@,
            "Medium"@,
        ),
        has_fields(
            r@[3],
            "Modern Stable"@,
            "3.2.0"@,
            "Good balance of modern features vs paywalls."@,
            seq!["Modern UI"@, "Smooth"@, "Balanced"@],
            "https://lf16-capcut.faceulv.com/obj/capcutpc-packages-us/packages/CapCut_3_2_0_1106_capcutpc_0_creatortool.exe"@,
            "Medium"@,
        ),
        has_fields(
            r@[4],
            "Creator"@,
            "3.9.0"@,
            "Last version with free auto-captions (High Risk)."@,
            seq!["Auto-Captions"@, "AI Features"@, "Effects"@],
            "https://lf16-capcut.faceulv.com/obj/capcutpc-packages-us/packages/CapCut_3_9_0_1459_capcutpc_0_creatortool.exe"@,
            "High"@,
        ),
        has_fields(
            r@[5],
            "Power User"@,
            "4.0.0"@,
            "Track height adjustment & markers. Stricter paywall."@,
            seq!["Track Zoom"@, "Markers"@, "Adv Features"@],
            "https://lf16-capcut.faceulv.com/obj/capcutpc-packages-us/packages/CapCut_4_0_0_1539_capcutpc_0_creatortool.exe"@,
            "Medium"@,
        ),
{
    let mut r: Vec<ArchiveVersion> = Vec::new();
    r.push(
        archive_version(
            "Offline Purist",
            "1.5.0",
            "Zero cloud dependencies. Unrestricted 4K export.",
            "Clean UI",
            "Offline Only",
            "No Nags",
            "https://lf16-capcut.faceulv.com/obj/capcutpc-packages-us/packages/CapCut_1_5_0_230_capcutpc_0.exe",
            "Low",
        ),
    );
    r.push(
        archive_version(
            "Audio Engineer",
            "2.5.4",
            "Multi-track audio & stable mixer. The golden era.",
            "Multi-Track",
            "Audio Mixer",
            "Keyframes",
            "https://lf16-capcut.faceulv.com/obj/capcutpc-packages-us/packages/CapCut_2_5_4_810_capcutpc_0_creatortool.exe",
            "Low",
        ),
    );
    r.push(
        archive_version(
            "Classic Pro",
            "2.9.0",
            "Most free features before the generic paywalls.",
            "Max Free Features",
            "Stable",
            "Legacy UI",
            "https://lf16-capcut.faceulv.com/obj/capcutpc-packages-us/packages/CapCut_2_9_0_966_capcutpc_0_creatortool.exe",
            "Medium",
        ),
    );
    r.push(
        archive_version(
            "Modern Stable",
            "3.2.0",
            "Good balance of modern features vs paywalls.",
            "Modern UI",
            "Smooth",
            "Balanced",
            "https://lf16-capcut.faceulv.com/obj/capcutpc-packages-us/packages/CapCut_3_2_0_1106_capcutpc_0_creatortool.exe",
            "Medium",
        ),
    );
    r.push(
        archive_version(
            "Creator",
            "3.9.0",
            "Last version with free auto-captions (High Risk).",
            "Auto-Captions",
            "AI Features",
            "Effects",
            "https://lf16-capcut.faceulv.com/obj/capcutpc-packages-us/packages/CapCut_3_9_0_1459_capcutpc_0_creatortool.exe",
            "High",
        ),
    );
    r.push(
        archive_version(
            "Power User",
            "4.0.0",
            "Track height adjustment & markers. Stricter paywall.",
            "Track Zoom",
            "Markers",
            "Adv Features",
            "https://lf16-capcut.faceulv.com/obj/capcutpc-packages-us/packages/CapCut_4_0_0_1539_capcutpc_0_creatortool.exe",
            "Medium",
        ),
    );
    r
}

} // verus!
