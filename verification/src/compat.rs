//! Platform-compatibility classification model: windowing-protocol support,
//! detected UI framework, and the derived integration-risk level.

use vstd::prelude::*;

verus! {

/// How an application supports the Wayland windowing protocol.
#[derive(Clone, Copy, Debug, PartialEq, Eq, Structural)]
pub enum WaylandSupport {
    Native,
    Fallback,
    X11Only,
    Unknown,
}

/// The UI framework detected for an application.
#[derive(Clone, Copy, Debug, PartialEq, Eq, Structural)]
pub enum AppFramework {
    Native,
    GTK3,
    GTK4,
    Qt5,
    Qt6,
    QtWebEngine,
    Electron,
    Unknown,
}

/// Coarse bucket summarizing platform-integration risk.
#[derive(Clone, Copy, Debug, PartialEq, Eq, Structural)]
pub enum RiskLevel {
    Low,
    Medium,
    High,
    Critical,
}

/// Compatibility classification of one application.
#[derive(Clone, Copy, Debug, PartialEq, Eq, Structural)]
pub struct WaylandCompatibility {
    pub support: WaylandSupport,
    pub framework: AppFramework,
    pub risk_level: RiskLevel,
}

/// The documented risk precedence table, applied top to bottom, first match
/// wins: X11-only is critical; a QtWebEngine or Electron framework is high
/// risk regardless of support; fallback support is medium; native support
/// with Qt5 or Qt6 is medium; native support with a GTK or native framework
/// is low; every other combination defaults to medium.
pub open spec fn spec_risk_level(support: WaylandSupport, framework: AppFramework) -> RiskLevel {
    if support == WaylandSupport::X11Only {
        RiskLevel::Critical
    } else if framework == AppFramework::QtWebEngine || framework == AppFramework::Electron {
        RiskLevel::High
    } else if support == WaylandSupport::Fallback {
        RiskLevel::Medium
    } else if support == WaylandSupport::Native && (framework == AppFramework::Qt5 || framework
        == AppFramework::Qt6) {
        RiskLevel::Medium
    } else if support == WaylandSupport::Native && (framework == AppFramework::GTK3 || framework
        == AppFramework::GTK4 || framework == AppFramework::Native) {
        RiskLevel::Low
    } else {
        RiskLevel::Medium
    }
}

/// Risk for a `(support, framework)` pair; total over all combinations and
/// equal to the documented precedence table.
pub fn calculate_risk_level(support: WaylandSupport, framework: AppFramework) -> (r: RiskLevel)
    ensures
        r == spec_risk_level(support, framework),
{
    match (support, framework) {
        (WaylandSupport::X11Only, _) => RiskLevel::Critical,
        (_, AppFramework::QtWebEngine) => RiskLevel::High,
        (_, AppFramework::Electron) => RiskLevel::High,
        (WaylandSupport::Native, AppFramework::Qt6) => RiskLevel::Medium,
        (WaylandSupport::Fallback, _) => RiskLevel::Medium,
        (WaylandSupport::Native, AppFramework::Qt5) => RiskLevel::Medium,
        (WaylandSupport::Native, AppFramework::GTK3) => RiskLevel::Low,
        (WaylandSupport::Native, AppFramework::GTK4) => RiskLevel::Low,
        (WaylandSupport::Native, AppFramework::Native) => RiskLevel::Low,
        _ => RiskLevel::Medium,
    }
}

/// Ordinal of a risk level: low sorts first, critical last.
pub open spec fn spec_risk_ord(r: RiskLevel) -> int {
    match r {
        RiskLevel::Low => 0,
        RiskLevel::Medium => 1,
        RiskLevel::High => 2,
        RiskLevel::Critical => 3,
    }
}

/// Exec ordinal of a risk level.
pub fn risk_ord(r: RiskLevel) -> (o: u8)
    ensures
        o as int == spec_risk_ord(r),
{
    match r {
        RiskLevel::Low => 0,
        RiskLevel::Medium => 1,
        RiskLevel::High => 2,
        RiskLevel::Critical => 3,
    }
}

/// Every `(support, framework)` combination maps to exactly one defined
/// risk level: the classification table is total.
pub proof fn lemma_risk_table_total(support: WaylandSupport, framework: AppFramework)
    ensures
        spec_risk_level(support, framework) == RiskLevel::Low || spec_risk_level(
            support,
            framework,
        ) == RiskLevel::Medium || spec_risk_level(support, framework) == RiskLevel::High
            || spec_risk_level(support, framework) == RiskLevel::Critical,
{
}

} // verus!
