//! Names of the enumerated choices of the site model, and stepping through
//! a choice list forwards and backwards as the form editor does.
use vstd::prelude::*;
use crate::text::{ascii_lower, ascii_lowercase_chars, chars_eq, chars_of, trim_chars, trimmed};
use crate::site::{
    AlertClass, AlertType, HeroAos, HeroImageClass, NavigationClass, NavigationKind,
    NavigationType, RobotsDirective, SchemaType, SectionClass,
};

verus! {

/// The class name written for a section class.
pub open spec fn section_class_name(v: SectionClass) -> Seq<char> {
    match v {
        SectionClass::Contained => "-contained"@,
        SectionClass::ContainedMd => "-contained-md"@,
        SectionClass::ContainedLg => "-contained-lg"@,
        SectionClass::ContainedXl => "-contained-xl"@,
        SectionClass::ContainedXxl => "-contained-xxl"@,
        SectionClass::FullFull => "-full-full"@,
        SectionClass::FullContained => "-full-contained"@,
        SectionClass::FullContainedMd => "-full-contained-md"@,
        SectionClass::FullContainedLg => "-full-contained-lg"@,
        SectionClass::FullContainedXl => "-full-contained-xl"@,
        SectionClass::FullContainedXxl => "-full-contained-xxl"@,
    }
}

/// Class name of a section class, e.g. `-full-contained`.
pub fn section_class_to_str(v: SectionClass) -> (r: &'static str)
    ensures
        r@ == section_class_name(v),
{
    match v {
        SectionClass::Contained => "-contained",
        SectionClass::ContainedMd => "-contained-md",
        SectionClass::ContainedLg => "-contained-lg",
        SectionClass::ContainedXl => "-contained-xl",
        SectionClass::ContainedXxl => "-contained-xxl",
        SectionClass::FullFull => "-full-full",
        SectionClass::FullContained => "-full-contained",
        SectionClass::FullContainedMd => "-full-contained-md",
        SectionClass::FullContainedLg => "-full-contained-lg",
        SectionClass::FullContainedXl => "-full-contained-xl",
        SectionClass::FullContainedXxl => "-full-contained-xxl",
    }
}

/// The class name written for a hero image class.
pub open spec fn hero_image_class_name(v: HeroImageClass) -> Seq<char> {
    match v {
        HeroImageClass::Contained => "-contained"@,
        HeroImageClass::ContainedMd => "-contained-md"@,
        HeroImageClass::ContainedLg => "-contained-lg"@,
        HeroImageClass::ContainedXl => "-contained-xl"@,
        HeroImageClass::ContainedXxl => "-contained-xxl"@,
        HeroImageClass::FullFull => "-full-full"@,
        HeroImageClass::FullContained => "-full-contained"@,
        HeroImageClass::FullContainedMd => "-full-contained-md"@,
        HeroImageClass::FullContainedLg => "-full-contained-lg"@,
        HeroImageClass::FullContainedXl => "-full-contained-xl"@,
        HeroImageClass::FullContainedXxl => "-full-contained-xxl"@,
    }
}

/// Class name of a hero image class, e.g. `-full-full`.
pub fn hero_image_class_to_str(v: HeroImageClass) -> (r: &'static str)
    ensures
        r@ == hero_image_class_name(v),
{
    match v {
        HeroImageClass::Contained => "-contained",
        HeroImageClass::ContainedMd => "-contained-md",
        HeroImageClass::ContainedLg => "-contained-lg",
        HeroImageClass::ContainedXl => "-contained-xl",
        HeroImageClass::ContainedXxl => "-contained-xxl",
        HeroImageClass::FullFull => "-full-full",
        HeroImageClass::FullContained => "-full-contained",
        HeroImageClass::FullContainedMd => "-full-contained-md",
        HeroImageClass::FullContainedLg => "-full-contained-lg",
        HeroImageClass::FullContainedXl => "-full-contained-xl",
        HeroImageClass::FullContainedXxl => "-full-contained-xxl",
    }
}

/// The `data-aos` value written for an animation.
pub open spec fn aos_name(v: HeroAos) -> Seq<char> {
    match v {
        HeroAos::FadeIn => "fade-in"@,
        HeroAos::FadeUp => "fade-up"@,
        HeroAos::FadeRight => "fade-right"@,
        HeroAos::FadeDown => "fade-down"@,
        HeroAos::FadeLeft => "fade-left"@,
        HeroAos::ZoomIn => "zoom-in"@,
        HeroAos::ZoomInUp => "zoom-in-up"@,
        HeroAos::ZoomInDown => "zoom-in-down"@,
    }
}

/// `data-aos` value of an animation, e.g. `fade-in`.
pub fn parent_data_aos_to_str(v: HeroAos) -> (r: &'static str)
    ensures
        r@ == aos_name(v),
{
    match v {
        HeroAos::FadeIn => "fade-in",
        HeroAos::FadeUp => "fade-up",
        HeroAos::FadeRight => "fade-right",
        HeroAos::FadeDown => "fade-down",
        HeroAos::FadeLeft => "fade-left",
        HeroAos::ZoomIn => "zoom-in",
        HeroAos::ZoomInUp => "zoom-in-up",
        HeroAos::ZoomInDown => "zoom-in-down",
    }
}

/// The name written for a navigation entry kind.
pub open spec fn navigation_kind_name(v: NavigationKind) -> Seq<char> {
    match v {
        NavigationKind::Link => "link"@,
        NavigationKind::Button => "button"@,
    }
}

/// Name of a navigation entry kind: `link` or `button`.
pub fn navigation_kind_to_str(v: NavigationKind) -> (r: &'static str)
    ensures
        r@ == navigation_kind_name(v),
{
    match v {
        NavigationKind::Link => "link",
        NavigationKind::Button => "button",
    }
}

/// The other navigation entry kind (two kinds: both directions agree).
pub open spec fn other_navigation_kind(v: NavigationKind) -> NavigationKind {
    match v {
        NavigationKind::Link => NavigationKind::Button,
        NavigationKind::Button => NavigationKind::Link,
    }
}

/// Next navigation kind in either direction: the other one.
pub fn next_navigation_kind(current: NavigationKind, forward: bool) -> (r: NavigationKind)
    ensures
        r == other_navigation_kind(current),
{
    let _ = forward;
    match current {
        NavigationKind::Link => NavigationKind::Button,
        NavigationKind::Button => NavigationKind::Link,
    }
}

/// The name written for a robots directive.
pub open spec fn robots_name(v: RobotsDirective) -> Seq<char> {
    match v {
        RobotsDirective::IndexFollow => "index, follow"@,
        RobotsDirective::NoindexFollow => "noindex, follow"@,
        RobotsDirective::IndexNofollow => "index, nofollow"@,
        RobotsDirective::NoindexNofollow => "noindex, nofollow"@,
    }
}

/// Robots meta content of a directive, e.g. `index, follow`.
pub fn robots_directive_to_str(v: RobotsDirective) -> (r: &'static str)
    ensures
        r@ == robots_name(v),
{
    match v {
        RobotsDirective::IndexFollow => "index, follow",
        RobotsDirective::NoindexFollow => "noindex, follow",
        RobotsDirective::IndexNofollow => "index, nofollow",
        RobotsDirective::NoindexNofollow => "noindex, nofollow",
    }
}

/// The name written for a schema.org type.
pub open spec fn schema_type_name(v: SchemaType) -> Seq<char> {
    match v {
        SchemaType::WebPage => "WebPage"@,
        SchemaType::Article => "Article"@,
        SchemaType::AboutPage => "AboutPage"@,
        SchemaType::ContactPage => "ContactPage"@,
        SchemaType::CollectionPage => "CollectionPage"@,
        SchemaType::Organization => "Organization"@,
        SchemaType::LocalBusiness => "LocalBusiness"@,
        SchemaType::Product => "Product"@,
        SchemaType::Service => "Service"@,
    }
}

/// schema.org name of a schema type, e.g. `WebPage`.
pub fn schema_type_to_str(v: SchemaType) -> (r: &'static str)
    ensures
        r@ == schema_type_name(v),
{
    match v {
        SchemaType::WebPage => "WebPage",
        SchemaType::Article => "Article",
        SchemaType::AboutPage => "AboutPage",
        SchemaType::ContactPage => "ContactPage",
        SchemaType::CollectionPage => "CollectionPage",
        SchemaType::Organization => "Organization",
        SchemaType::LocalBusiness => "LocalBusiness",
        SchemaType::Product => "Product",
        SchemaType::Service => "Service",
    }
}

/// Index `i` moved one step along a cycle of `n` entries.
pub open spec fn cycle_step(i: int, n: int, forward: bool) -> int {
    if forward {
        (i + 1) % n
    } else if i == 0 {
        n - 1
    } else {
        i - 1
    }
}

/// Position of an alert type in its cycle.
pub open spec fn alert_type_pos(v: AlertType) -> int {
    match v {
        AlertType::Default => 0,
        AlertType::Info => 1,
        AlertType::Warning => 2,
        AlertType::Error => 3,
        AlertType::Success => 4,
    }
}

/// Alert type at a position of its cycle.
pub open spec fn alert_type_at(i: int) -> AlertType {
    if i == 0 { AlertType::Default }
    else if i == 1 { AlertType::Info }
    else if i == 2 { AlertType::Warning }
    else if i == 3 { AlertType::Error }
    else { AlertType::Success }
}

/// Next (or previous) alert type in the cycle Default, Info, Warning,
/// Error, Success.
pub fn next_alert_type(current: AlertType, forward: bool) -> (r: AlertType)
    ensures
        r == alert_type_at(cycle_step(alert_type_pos(current), 5, forward)),
{
    let all = [AlertType::Default, AlertType::Info, AlertType::Warning, AlertType::Error, AlertType::Success];
    let idx: usize = match current {
        AlertType::Default => 0,
        AlertType::Info => 1,
        AlertType::Warning => 2,
        AlertType::Error => 3,
        AlertType::Success => 4,
    };
    let next_idx: usize = if forward {
        (idx + 1) % 5
    } else if idx == 0 {
        4
    } else {
        idx - 1
    };
    all[next_idx]
}

/// Position of an alert class in its cycle.
pub open spec fn alert_class_pos(v: AlertClass) -> int {
    match v {
        AlertClass::Default => 0,
        AlertClass::Compact => 1,
    }
}

/// Alert class at a position of its cycle.
pub open spec fn alert_class_at(i: int) -> AlertClass {
    if i == 0 { AlertClass::Default } else { AlertClass::Compact }
}

/// Next (or previous) alert class in the cycle Default, Compact.
pub fn next_alert_class(current: AlertClass, forward: bool) -> (r: AlertClass)
    ensures
        r == alert_class_at(cycle_step(alert_class_pos(current), 2, forward)),
{
    let all = [AlertClass::Default, AlertClass::Compact];
    let idx: usize = match current {
        AlertClass::Default => 0,
        AlertClass::Compact => 1,
    };
    let next_idx: usize = if forward {
        (idx + 1) % 2
    } else if idx == 0 {
        1
    } else {
        idx - 1
    };
    all[next_idx]
}

/// Position of a navigation type in its cycle.
pub open spec fn navigation_type_pos(v: NavigationType) -> int {
    match v {
        NavigationType::HeaderNav => 0,
        NavigationType::FooterNav => 1,
    }
}

/// Navigation type at a position of its cycle.
pub open spec fn navigation_type_at(i: int) -> NavigationType {
    if i == 0 { NavigationType::HeaderNav } else { NavigationType::FooterNav }
}

/// Next (or previous) navigation type in the cycle HeaderNav, FooterNav.
pub fn next_navigation_type(current: NavigationType, forward: bool) -> (r: NavigationType)
    ensures
        r == navigation_type_at(cycle_step(navigation_type_pos(current), 2, forward)),
{
    let all = [NavigationType::HeaderNav, NavigationType::FooterNav];
    let idx: usize = match current {
        NavigationType::HeaderNav => 0,
        NavigationType::FooterNav => 1,
    };
    let next = if forward { (idx + 1) % 2 } else { (idx + 2 - 1) % 2 };
    all[next]
}

/// Position of a navigation class in its cycle.
pub open spec fn navigation_class_pos(v: NavigationClass) -> int {
    match v {
        NavigationClass::MainMenu => 0,
        NavigationClass::MenuSecondary => 1,
        NavigationClass::MenuTertiary => 2,
        NavigationClass::FooterMenu => 3,
        NavigationClass::FooterMenuSecondary => 4,
        NavigationClass::FooterMenuTertiary => 5,
        NavigationClass::SocialMenu => 6,
    }
}

/// Navigation class at a position of its cycle.
pub open spec fn navigation_class_at(i: int) -> NavigationClass {
    if i == 0 { NavigationClass::MainMenu }
    else if i == 1 { NavigationClass::MenuSecondary }
    else if i == 2 { NavigationClass::MenuTertiary }
    else if i == 3 { NavigationClass::FooterMenu }
    else if i == 4 { NavigationClass::FooterMenuSecondary }
    else if i == 5 { NavigationClass::FooterMenuTertiary }
    else { NavigationClass::SocialMenu }
}

/// Next (or previous) navigation class in the cycle MainMenu,
/// MenuSecondary, MenuTertiary, FooterMenu, FooterMenuSecondary,
/// FooterMenuTertiary, SocialMenu.
pub fn next_navigation_class(current: NavigationClass, forward: bool) -> (r: NavigationClass)
    ensures
        r == navigation_class_at(cycle_step(navigation_class_pos(current), 7, forward)),
{
    let all = [
        NavigationClass::MainMenu,
        NavigationClass::MenuSecondary,
        NavigationClass::MenuTertiary,
        NavigationClass::FooterMenu,
        NavigationClass::FooterMenuSecondary,
        NavigationClass::FooterMenuTertiary,
        NavigationClass::SocialMenu,
    ];
    let idx: usize = match current {
        NavigationClass::MainMenu => 0,
        NavigationClass::MenuSecondary => 1,
        NavigationClass::MenuTertiary => 2,
        NavigationClass::FooterMenu => 3,
        NavigationClass::FooterMenuSecondary => 4,
        NavigationClass::FooterMenuTertiary => 5,
        NavigationClass::SocialMenu => 6,
    };
    let next = if forward { (idx + 1) % 7 } else { (idx + 7 - 1) % 7 };
    all[next]
}

/// Position of a robots directive in its cycle.
pub open spec fn robots_pos(v: RobotsDirective) -> int {
    match v {
        RobotsDirective::IndexFollow => 0,
        RobotsDirective::NoindexFollow => 1,
        RobotsDirective::IndexNofollow => 2,
        RobotsDirective::NoindexNofollow => 3,
    }
}

/// Robots directive at a position of its cycle.
pub open spec fn robots_at(i: int) -> RobotsDirective {
    if i == 0 { RobotsDirective::IndexFollow }
    else if i == 1 { RobotsDirective::NoindexFollow }
    else if i == 2 { RobotsDirective::IndexNofollow }
    else { RobotsDirective::NoindexNofollow }
}

/// Next (or previous) robots directive in the cycle IndexFollow,
/// NoindexFollow, IndexNofollow, NoindexNofollow.
pub fn next_robots_directive(current: RobotsDirective, forward: bool) -> (r: RobotsDirective)
    ensures
        r == robots_at(cycle_step(robots_pos(current), 4, forward)),
{
    let all = [
        RobotsDirective::IndexFollow,
        RobotsDirective::NoindexFollow,
        RobotsDirective::IndexNofollow,
        RobotsDirective::NoindexNofollow,
    ];
    let idx: usize = match current {
        RobotsDirective::IndexFollow => 0,
        RobotsDirective::NoindexFollow => 1,
        RobotsDirective::IndexNofollow => 2,
        RobotsDirective::NoindexNofollow => 3,
    };
    let next = if forward { (idx + 1) % 4 } else { (idx + 4 - 1) % 4 };
    all[next]
}

/// Position of a schema type in its cycle.
pub open spec fn schema_pos(v: SchemaType) -> int {
    match v {
        SchemaType::WebPage => 0,
        SchemaType::Article => 1,
        SchemaType::AboutPage => 2,
        SchemaType::ContactPage => 3,
        SchemaType::CollectionPage => 4,
        SchemaType::Organization => 5,
        SchemaType::LocalBusiness => 6,
        SchemaType::Product => 7,
        SchemaType::Service => 8,
    }
}

/// Schema type at a position of its cycle.
pub open spec fn schema_at(i: int) -> SchemaType {
    if i == 0 { SchemaType::WebPage }
    else if i == 1 { SchemaType::Article }
    else if i == 2 { SchemaType::AboutPage }
    else if i == 3 { SchemaType::ContactPage }
    else if i == 4 { SchemaType::CollectionPage }
    else if i == 5 { SchemaType::Organization }
    else if i == 6 { SchemaType::LocalBusiness }
    else if i == 7 { SchemaType::Product }
    else { SchemaType::Service }
}

/// Next (or previous) schema type in the cycle WebPage, Article,
/// AboutPage, ContactPage, CollectionPage, Organization, LocalBusiness,
/// Product, Service.
pub fn next_schema_type(current: SchemaType, forward: bool) -> (r: SchemaType)
    ensures
        r == schema_at(cycle_step(schema_pos(current), 9, forward)),
{
    let all = [
        SchemaType::WebPage,
        SchemaType::Article,
        SchemaType::AboutPage,
        SchemaType::ContactPage,
        SchemaType::CollectionPage,
        SchemaType::Organization,
        SchemaType::LocalBusiness,
        SchemaType::Product,
        SchemaType::Service,
    ];
    let idx: usize = match current {
        SchemaType::WebPage => 0,
        SchemaType::Article => 1,
        SchemaType::AboutPage => 2,
        SchemaType::ContactPage => 3,
        SchemaType::CollectionPage => 4,
        SchemaType::Organization => 5,
        SchemaType::LocalBusiness => 6,
        SchemaType::Product => 7,
        SchemaType::Service => 8,
    };
    let next = if forward { (idx + 1) % 9 } else { (idx + 9 - 1) % 9 };
    all[next]
}


/// The navigation kind a user-typed name stands for: `link` or `button`,
/// ignoring surrounding whitespace and ASCII case.
pub open spec fn navigation_kind_named(raw: Seq<char>) -> Option<NavigationKind> {
    let t = ascii_lower(trimmed(raw));
    if t == seq!['l', 'i', 'n', 'k'] {
        Some(NavigationKind::Link)
    } else if t == seq!['b', 'u', 't', 't', 'o', 'n'] {
        Some(NavigationKind::Button)
    } else {
        None
    }
}

/// Navigation kind named by `raw` (trimmed, ASCII case ignored), if any.
pub fn parse_navigation_kind(raw: &str) -> (r: Option<NavigationKind>)
    ensures
        r == navigation_kind_named(raw@),
{
    let cs = chars_of(raw);
    let trimmed_cs = trim_chars(cs.as_slice());
    let lower = ascii_lowercase_chars(trimmed_cs.as_slice());
    let link: [char; 4] = ['l', 'i', 'n', 'k'];
    let button: [char; 6] = ['b', 'u', 't', 't', 'o', 'n'];
    assert(link@ =~= seq!['l', 'i', 'n', 'k']);
    assert(button@ =~= seq!['b', 'u', 't', 't', 'o', 'n']);
    if chars_eq(&lower, &link) {
        Some(NavigationKind::Link)
    } else if chars_eq(&lower, &button) {
        Some(NavigationKind::Button)
    } else {
        None
    }
}

/// A navigation kind's name reads back as that kind.
pub proof fn law_navigation_kind_name_round_trip(k: NavigationKind)
    ensures
        navigation_kind_named(navigation_kind_name(k)) == Some(k),
{
    reveal_strlit("link");
    reveal_strlit("button");
    let n = navigation_kind_name(k);
    match k {
        NavigationKind::Link => assert(n =~= seq!['l', 'i', 'n', 'k']),
        NavigationKind::Button => assert(n =~= seq!['b', 'u', 't', 't', 'o', 'n']),
    }
    assert(!crate::text::is_space(n[0]));
    assert(crate::text::trim_start(n) == n);
    assert(!crate::text::is_space(n.last()));
    assert(crate::text::trim_end(n) == n);
    assert(ascii_lower(n) =~= n);
}

/// One step of the alert type cycle.
pub open spec fn alert_type_step(v: AlertType, forward: bool) -> AlertType {
    alert_type_at(cycle_step(alert_type_pos(v), 5, forward))
}

/// Stepping an alert type forward then back (or back then forward) gives it back.
pub proof fn law_alert_type_step_inverse(v: AlertType)
    ensures
        alert_type_step(alert_type_step(v, true), false) == v,
        alert_type_step(alert_type_step(v, false), true) == v,
{
}

/// One step of the alert class cycle.
pub open spec fn alert_class_step(v: AlertClass, forward: bool) -> AlertClass {
    alert_class_at(cycle_step(alert_class_pos(v), 2, forward))
}

/// Stepping an alert class forward then back (or back then forward) gives it back.
pub proof fn law_alert_class_step_inverse(v: AlertClass)
    ensures
        alert_class_step(alert_class_step(v, true), false) == v,
        alert_class_step(alert_class_step(v, false), true) == v,
{
}

/// One step of the navigation type cycle.
pub open spec fn navigation_type_step(v: NavigationType, forward: bool) -> NavigationType {
    navigation_type_at(cycle_step(navigation_type_pos(v), 2, forward))
}

/// Stepping a navigation type forward then back (or back then forward) gives it back.
pub proof fn law_navigation_type_step_inverse(v: NavigationType)
    ensures
        navigation_type_step(navigation_type_step(v, true), false) == v,
        navigation_type_step(navigation_type_step(v, false), true) == v,
{
}

/// One step of the navigation class cycle.
pub open spec fn navigation_class_step(v: NavigationClass, forward: bool) -> NavigationClass {
    navigation_class_at(cycle_step(navigation_class_pos(v), 7, forward))
}

/// Stepping a navigation class forward then back (or back then forward) gives it back.
pub proof fn law_navigation_class_step_inverse(v: NavigationClass)
    ensures
        navigation_class_step(navigation_class_step(v, true), false) == v,
        navigation_class_step(navigation_class_step(v, false), true) == v,
{
}

/// One step of the robots directive cycle.
pub open spec fn robots_step(v: RobotsDirective, forward: bool) -> RobotsDirective {
    robots_at(cycle_step(robots_pos(v), 4, forward))
}

/// Stepping a robots directive forward then back (or back then forward) gives it back.
pub proof fn law_robots_step_inverse(v: RobotsDirective)
    ensures
        robots_step(robots_step(v, true), false) == v,
        robots_step(robots_step(v, false), true) == v,
{
}

/// One step of the schema type cycle.
pub open spec fn schema_step(v: SchemaType, forward: bool) -> SchemaType {
    schema_at(cycle_step(schema_pos(v), 9, forward))
}

/// Stepping a schema type forward then back (or back then forward) gives it back.
pub proof fn law_schema_step_inverse(v: SchemaType)
    ensures
        schema_step(schema_step(v, true), false) == v,
        schema_step(schema_step(v, false), true) == v,
{
}

/// Toggling a navigation kind twice gives it back.
pub proof fn law_navigation_kind_toggle_inverse(v: NavigationKind)
    ensures
        other_navigation_kind(other_navigation_kind(v)) == v,
{
}

/// Distinct section classes have distinct class names.
pub proof fn law_section_class_names_distinct(a: SectionClass, b: SectionClass)
    requires
        a != b,
    ensures
        section_class_name(a) != section_class_name(b),
{
    reveal_strlit("-contained");
    reveal_strlit("-contained-md");
    reveal_strlit("-contained-lg");
    reveal_strlit("-contained-xl");
    reveal_strlit("-contained-xxl");
    reveal_strlit("-full-full");
    reveal_strlit("-full-contained");
    reveal_strlit("-full-contained-md");
    reveal_strlit("-full-contained-lg");
    reveal_strlit("-full-contained-xl");
    reveal_strlit("-full-contained-xxl");
    if section_class_name(a) == section_class_name(b) {
        let x = section_class_name(a);
        assert(x.len() == section_class_name(b).len());
        assert(x[1] == section_class_name(b)[1]);
        assert(x[x.len() - 2] == section_class_name(b)[x.len() - 2]);
        assert(x[x.len() - 3] == section_class_name(b)[x.len() - 3]);
        assert(x[x.len() - 4] == section_class_name(b)[x.len() - 4]);
    }
}

} // verus!
