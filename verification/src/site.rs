//! The site tree that the editor works on: pages made of hero and section
//! nodes, sections made of columns, columns made of components, and the
//! header and footer regions.
use vstd::prelude::*;

verus! {

/// Animate-on-scroll effect of a block.
#[derive(Clone, Copy, PartialEq, Eq, Debug, Structural)]
pub enum HeroAos {
    FadeIn,
    FadeUp,
    FadeRight,
    FadeDown,
    FadeLeft,
    ZoomIn,
    ZoomInUp,
    ZoomInDown,
}

/// Width and containment class of a section.
#[derive(Clone, Copy, PartialEq, Eq, Debug, Structural)]
pub enum SectionClass {
    Contained,
    ContainedMd,
    ContainedLg,
    ContainedXl,
    ContainedXxl,
    FullFull,
    FullContained,
    FullContainedMd,
    FullContainedLg,
    FullContainedXl,
    FullContainedXxl,
}

/// Width and containment class of a hero image.
#[derive(Clone, Copy, PartialEq, Eq, Debug, Structural)]
pub enum HeroImageClass {
    Contained,
    ContainedMd,
    ContainedLg,
    ContainedXl,
    ContainedXxl,
    FullFull,
    FullContained,
    FullContainedMd,
    FullContainedLg,
    FullContainedXl,
    FullContainedXxl,
}

/// Box style of the items of a section.
#[derive(Clone, Copy, PartialEq, Eq, Debug, Structural)]
pub enum SectionItemBoxClass {
    LBox,
}

/// Kind of an alert.
#[derive(Clone, Copy, PartialEq, Eq, Debug, Structural)]
pub enum AlertType {
    Default,
    Info,
    Warning,
    Error,
    Success,
}

/// Density of an alert.
#[derive(Clone, Copy, PartialEq, Eq, Debug, Structural)]
pub enum AlertClass {
    Default,
    Compact,
}

/// Where a navigation block lives.
#[derive(Clone, Copy, PartialEq, Eq, Debug, Structural)]
pub enum NavigationType {
    HeaderNav,
    FooterNav,
}

/// Menu style of a navigation block.
#[derive(Clone, Copy, PartialEq, Eq, Debug, Structural)]
pub enum NavigationClass {
    MainMenu,
    MenuSecondary,
    MenuTertiary,
    FooterMenu,
    FooterMenuSecondary,
    FooterMenuTertiary,
    SocialMenu,
}

/// Whether a navigation entry is a link or a button.
#[derive(Clone, Copy, PartialEq, Eq, Debug, Structural)]
pub enum NavigationKind {
    Link,
    Button,
}

/// Robots meta directive of a page.
#[derive(Clone, Copy, PartialEq, Eq, Debug, Structural)]
pub enum RobotsDirective {
    IndexFollow,
    NoindexFollow,
    IndexNofollow,
    NoindexNofollow,
}

/// schema.org type of a page.
#[derive(Clone, Copy, PartialEq, Eq, Debug, Structural)]
pub enum SchemaType {
    WebPage,
    Article,
    AboutPage,
    ContactPage,
    CollectionPage,
    Organization,
    LocalBusiness,
    Product,
    Service,
}

/// Placement of the text of a call-to-action.
#[derive(Clone, Copy, PartialEq, Eq, Debug, Structural)]
pub enum CtaClass {
    TopLeft,
    TopCenter,
    CenterCenter,
}

/// Target of a link.
#[derive(Clone, Copy, PartialEq, Eq, Debug, Structural)]
pub enum CardLinkTarget {
    SelfTarget,
}

/// Target of a hero call-to-action link.
#[derive(Clone, Copy, PartialEq, Eq, Debug, Structural)]
pub enum CtaTarget {
    SelfTarget,
}

/// Background placement of a banner image.
#[derive(Clone, Copy, PartialEq, Eq, Debug, Structural)]
pub enum BannerClass {
    BgCenterCenter,
    BgCenterRight,
}

/// Behaviour of an accordion.
#[derive(Clone, Copy, PartialEq, Eq, Debug, Structural)]
pub enum AccordionType {
    Default,
}

/// Colour style of an accordion.
#[derive(Clone, Copy, PartialEq, Eq, Debug, Structural)]
pub enum AccordionClass {
    Primary,
}

/// Layout of alternating items.
#[derive(Clone, Copy, PartialEq, Eq, Debug, Structural)]
pub enum AlternatingType {
    Default,
}

/// Layout of cards.
#[derive(Clone, Copy, PartialEq, Eq, Debug, Structural)]
pub enum CardType {
    Default,
}

/// Layout of a filmstrip.
#[derive(Clone, Copy, PartialEq, Eq, Debug, Structural)]
pub enum FilmstripType {
    Default,
}

#[derive(Clone, Debug)]
pub struct DdCta {
    pub parent_class: CtaClass,
    pub parent_image_url: String,
    pub parent_image_alt: String,
    pub parent_data_aos: HeroAos,
    pub parent_title: String,
    pub parent_subtitle: String,
    pub parent_copy: String,
    pub parent_link_url: Option<String>,
    pub parent_link_target: Option<CardLinkTarget>,
    pub parent_link_label: Option<String>,
}

#[derive(Clone, Debug)]
pub struct DdBanner {
    pub parent_class: BannerClass,
    pub parent_data_aos: HeroAos,
    pub parent_image_url: String,
    pub parent_image_alt: String,
}

#[derive(Clone, Debug)]
pub struct DdBlockquote {
    pub parent_data_aos: HeroAos,
    pub parent_image_url: String,
    pub parent_image_alt: String,
    pub parent_name: String,
    pub parent_role: String,
    pub parent_copy: String,
}

#[derive(Clone, Debug)]
pub struct AccordionItem {
    pub child_title: String,
    pub child_copy: String,
}

#[derive(Clone, Debug)]
pub struct DdAccordion {
    pub parent_type: AccordionType,
    pub parent_class: AccordionClass,
    pub parent_data_aos: HeroAos,
    pub parent_group_name: String,
    pub items: Vec<AccordionItem>,
    pub multiple: Option<bool>,
}

#[derive(Clone, Debug)]
pub struct AlternatingItem {
    pub child_image_url: String,
    pub child_image_alt: String,
    pub child_title: String,
    pub child_copy: String,
}

#[derive(Clone, Debug)]
pub struct DdAlternating {
    pub parent_type: AlternatingType,
    pub parent_class: String,
    pub parent_data_aos: HeroAos,
    pub items: Vec<AlternatingItem>,
}

#[derive(Clone, Debug)]
pub struct CardItem {
    pub child_image_url: String,
    pub child_image_alt: String,
    pub child_title: String,
    pub child_subtitle: String,
    pub child_copy: String,
    pub child_link_url: Option<String>,
    pub child_link_target: Option<CardLinkTarget>,
    pub child_link_label: Option<String>,
}

#[derive(Clone, Debug)]
pub struct DdCard {
    pub parent_type: CardType,
    pub parent_data_aos: HeroAos,
    pub parent_width: String,
    pub items: Vec<CardItem>,
}

#[derive(Clone, Debug)]
pub struct FilmstripItem {
    pub child_image_url: String,
    pub child_image_alt: String,
    pub child_title: String,
}

#[derive(Clone, Debug)]
pub struct DdFilmstrip {
    pub parent_type: FilmstripType,
    pub parent_data_aos: HeroAos,
    pub items: Vec<FilmstripItem>,
}

#[derive(Clone, Debug)]
pub struct MilestonesItem {
    pub child_percentage: String,
    pub child_title: String,
    pub child_subtitle: String,
    pub child_copy: String,
    pub child_link_url: Option<String>,
    pub child_link_target: Option<CardLinkTarget>,
    pub child_link_label: Option<String>,
}

#[derive(Clone, Debug)]
pub struct DdMilestones {
    pub parent_data_aos: HeroAos,
    pub parent_width: String,
    pub items: Vec<MilestonesItem>,
}

#[derive(Clone, Debug)]
pub struct DdModal {
    pub parent_title: String,
    pub parent_copy: String,
}

#[derive(Clone, Debug)]
pub struct SliderItem {
    pub child_title: String,
    pub child_copy: String,
    pub child_link_url: Option<String>,
    pub child_link_target: Option<CardLinkTarget>,
    pub child_link_label: Option<String>,
    pub child_image_url: String,
    pub child_image_alt: String,
}

#[derive(Clone, Debug)]
pub struct DdSlider {
    pub parent_title: String,
    pub items: Vec<SliderItem>,
}

#[derive(Clone, Debug)]
pub struct DdAlert {
    pub parent_type: AlertType,
    pub parent_class: AlertClass,
    pub parent_data_aos: HeroAos,
    pub parent_title: Option<String>,
    pub parent_copy: String,
}

#[derive(Clone, Debug)]
pub struct DdImage {
    pub parent_data_aos: HeroAos,
    pub parent_image_url: String,
    pub parent_image_alt: String,
    pub parent_link_url: Option<String>,
    pub parent_link_target: Option<CardLinkTarget>,
}

#[derive(Clone, Debug)]
pub struct DdRichText {
    pub parent_class: Option<String>,
    pub parent_data_aos: HeroAos,
    pub parent_copy: String,
}

/// One entry of a navigation menu; `items` are its sub-entries.
#[derive(Debug)]
pub struct NavigationItem {
    pub child_kind: NavigationKind,
    pub child_link_label: String,
    pub child_link_url: Option<String>,
    pub child_link_target: Option<CardLinkTarget>,
    pub child_link_css: Option<String>,
    pub items: Vec<NavigationItem>,
}

impl Clone for NavigationItem {
    fn clone(&self) -> (r: Self)
        ensures
            same_entry(r, *self),
    {
        NavigationItem {
            child_kind: self.child_kind,
            child_link_label: self.child_link_label.clone(),
            child_link_url: self.child_link_url.clone(),
            child_link_target: self.child_link_target,
            child_link_css: self.child_link_css.clone(),
            items: copy_navigation_items(&self.items),
        }
    }
}

/// `a` has the fields of `b`, and as many sub-entries.
pub open spec fn same_entry(a: NavigationItem, b: NavigationItem) -> bool {
    &&& a.child_kind == b.child_kind
    &&& a.child_link_label == b.child_link_label
    &&& a.child_link_url == b.child_link_url
    &&& a.child_link_target == b.child_link_target
    &&& a.child_link_css == b.child_link_css
    &&& a.items@.len() == b.items@.len()
}

/// A copy of a list of navigation entries, sub-entries included.
fn copy_navigation_items(v: &Vec<NavigationItem>) -> (r: Vec<NavigationItem>)
    ensures
        r@.len() == v@.len(),
        forall|k: int| 0 <= k < v@.len() ==> same_entry(#[trigger] r@[k], v@[k]),
    decreases v@,
{
    let mut out: Vec<NavigationItem> = Vec::new();
    let mut i: usize = 0;
    while i < v.len()
        invariant
            i <= v@.len(),
            out@.len() == i,
            forall|k: int| 0 <= k < i ==> same_entry(#[trigger] out@[k], v@[k]),
        decreases v@.len() - i,
    {
        let x = &v[i];
        proof {
            assert(decreases_to!(v@ => v@[i as int]));
            assert(decreases_to!(v@[i as int] => v@[i as int].items));
            assert(decreases_to!(v@[i as int].items => v@[i as int].items@));
        }
        out.push(NavigationItem {
            child_kind: x.child_kind,
            child_link_label: x.child_link_label.clone(),
            child_link_url: x.child_link_url.clone(),
            child_link_target: x.child_link_target,
            child_link_css: x.child_link_css.clone(),
            items: copy_navigation_items(&x.items),
        });
        i += 1;
    }
    out
}

#[derive(Clone, Debug)]
pub struct DdNavigation {
    pub parent_type: NavigationType,
    pub parent_class: NavigationClass,
    pub parent_data_aos: HeroAos,
    pub parent_width: String,
    pub items: Vec<NavigationItem>,
}

#[derive(Clone, Debug)]
pub struct DdHeaderSearch {
    pub parent_width: String,
    pub parent_data_aos: HeroAos,
}

#[derive(Clone, Debug)]
pub struct DdHeaderMenu {
    pub parent_width: String,
    pub parent_data_aos: HeroAos,
}

/// A component placed in a section column.
#[derive(Clone, Debug)]
pub enum SectionComponent {
    Cta(DdCta),
    Filmstrip(DdFilmstrip),
    Milestones(DdMilestones),
    Slider(DdSlider),
    Modal(DdModal),
    Banner(DdBanner),
    Card(DdCard),
    Blockquote(DdBlockquote),
    Accordion(DdAccordion),
    Alternating(DdAlternating),
    Alert(DdAlert),
    Image(DdImage),
    RichText(DdRichText),
    Navigation(DdNavigation),
    HeaderSearch(DdHeaderSearch),
    HeaderMenu(DdHeaderMenu),
}

/// A column of a section: an id, a responsive width class and components.
#[derive(Clone, Debug)]
pub struct SectionColumn {
    pub id: String,
    pub width_class: String,
    pub components: Vec<SectionComponent>,
}

/// A section: id, optional title and classes, and its columns.
#[derive(Clone, Debug)]
pub struct DdSection {
    pub id: String,
    pub section_title: Option<String>,
    pub section_class: Option<SectionClass>,
    pub item_box_class: Option<SectionItemBoxClass>,
    pub columns: Vec<SectionColumn>,
}

/// The hero block at the top of a page.
#[derive(Clone, Debug)]
pub struct DdHero {
    pub parent_class: Option<HeroImageClass>,
    pub parent_data_aos: Option<HeroAos>,
    pub parent_custom_css: Option<String>,
    pub parent_title: String,
    pub parent_subtitle: String,
    pub parent_copy: Option<String>,
    pub link_1_label: Option<String>,
    pub link_1_url: Option<String>,
    pub link_1_target: Option<CtaTarget>,
    pub link_2_label: Option<String>,
    pub link_2_url: Option<String>,
    pub link_2_target: Option<CtaTarget>,
    pub parent_image_url: String,
    pub parent_image_alt: Option<String>,
    pub parent_image_mobile: Option<String>,
    pub parent_image_tablet: Option<String>,
    pub parent_image_desktop: Option<String>,
    pub parent_image_class: Option<HeroImageClass>,
}

/// A top-level node of a page.
#[derive(Clone, Debug)]
pub enum PageNode {
    Hero(DdHero),
    Section(DdSection),
}

/// A page: its nodes in order.
#[derive(Clone, Debug)]
pub struct Page {
    pub nodes: Vec<PageNode>,
}

/// The site header region.
#[derive(Clone, Debug)]
pub struct DdHeader {
    pub id: String,
    pub custom_css: Option<String>,
    pub alert: Option<DdAlert>,
    pub sections: Vec<DdSection>,
}

/// The site footer region.
#[derive(Clone, Debug)]
pub struct DdFooter {
    pub id: String,
    pub custom_css: Option<String>,
    pub sections: Vec<DdSection>,
}

} // verus!
