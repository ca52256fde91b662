//! The component kinds the editor can insert, their labels, their default
//! contents, and how they are named in the site blueprint.
use vstd::prelude::*;
use crate::site::{
    AccordionClass, AccordionItem, AccordionType, AlertClass, AlertType, AlternatingItem,
    AlternatingType, BannerClass, CardItem, CardLinkTarget, CardType, CtaClass, DdAccordion,
    DdAlert, DdAlternating, DdBanner, DdBlockquote, DdCard, DdCta, DdFilmstrip, DdHeaderMenu,
    DdHeaderSearch, DdImage, DdMilestones, DdModal, DdNavigation, DdRichText, DdSlider,
    FilmstripItem, FilmstripType, HeroAos, MilestonesItem, NavigationClass, NavigationItem,
    NavigationKind, NavigationType, SectionComponent, SliderItem,
};
use crate::text::push_str;

verus! {

broadcast use vstd::string::group_string_axioms;

/// The kinds of blocks the component picker offers.
#[derive(Clone, Copy, PartialEq, Eq, Debug, Structural)]
pub enum ComponentKind {
    Hero,
    Section,
    Banner,
    Cta,
    Blockquote,
    Accordion,
    Alternating,
    Card,
    Filmstrip,
    Milestones,
    Modal,
    Slider,
    Alert,
    Image,
    RichText,
    Navigation,
    HeaderSearch,
    HeaderMenu,
}

/// The kinds in picker order.
pub open spec fn all_kinds() -> Seq<ComponentKind> {
    seq![
        ComponentKind::Hero,
        ComponentKind::Section,
        ComponentKind::Cta,
        ComponentKind::Banner,
        ComponentKind::Blockquote,
        ComponentKind::Accordion,
        ComponentKind::Alternating,
        ComponentKind::Card,
        ComponentKind::Filmstrip,
        ComponentKind::Milestones,
        ComponentKind::Modal,
        ComponentKind::Slider,
        ComponentKind::Alert,
        ComponentKind::Image,
        ComponentKind::RichText,
        ComponentKind::Navigation,
        ComponentKind::HeaderSearch,
        ComponentKind::HeaderMenu,
    ]
}

/// The label of a kind.
pub open spec fn kind_label(k: ComponentKind) -> Seq<char> {
    match k {
        ComponentKind::Hero => "dd-hero"@,
        ComponentKind::Section => "dd-section"@,
        ComponentKind::Cta => "dd-cta"@,
        ComponentKind::Banner => "dd-banner"@,
        ComponentKind::Blockquote => "dd-blockquote"@,
        ComponentKind::Accordion => "dd-accordion"@,
        ComponentKind::Alternating => "dd-alternating"@,
        ComponentKind::Card => "dd-card"@,
        ComponentKind::Filmstrip => "dd-filmstrip"@,
        ComponentKind::Milestones => "dd-milestones"@,
        ComponentKind::Modal => "dd-modal"@,
        ComponentKind::Slider => "dd-slider"@,
        ComponentKind::Alert => "dd-alert"@,
        ComponentKind::Image => "dd-image"@,
        ComponentKind::RichText => "dd-rich_text"@,
        ComponentKind::Navigation => "dd-navigation"@,
        ComponentKind::HeaderSearch => "dd-header-search"@,
        ComponentKind::HeaderMenu => "dd-header-menu"@,
    }
}

impl ComponentKind {
    /// Every kind, in picker order.
    pub fn all() -> (r: Vec<ComponentKind>)
        ensures
            r@ == all_kinds(),
    {
        let r = vec![
            ComponentKind::Hero,
            ComponentKind::Section,
            ComponentKind::Cta,
            ComponentKind::Banner,
            ComponentKind::Blockquote,
            ComponentKind::Accordion,
            ComponentKind::Alternating,
            ComponentKind::Card,
            ComponentKind::Filmstrip,
            ComponentKind::Milestones,
            ComponentKind::Modal,
            ComponentKind::Slider,
            ComponentKind::Alert,
            ComponentKind::Image,
            ComponentKind::RichText,
            ComponentKind::Navigation,
            ComponentKind::HeaderSearch,
            ComponentKind::HeaderMenu,
        ];
        assert(r@ =~= all_kinds());
        r
    }

    /// The kind's label, e.g. `dd-cta`.
    pub fn label(self) -> (r: &'static str)
        ensures
            r@ == kind_label(self),
    {
        match self {
            ComponentKind::Hero => "dd-hero",
            ComponentKind::Section => "dd-section",
            ComponentKind::Cta => "dd-cta",
            ComponentKind::Banner => "dd-banner",
            ComponentKind::Blockquote => "dd-blockquote",
            ComponentKind::Accordion => "dd-accordion",
            ComponentKind::Alternating => "dd-alternating",
            ComponentKind::Card => "dd-card",
            ComponentKind::Filmstrip => "dd-filmstrip",
            ComponentKind::Milestones => "dd-milestones",
            ComponentKind::Modal => "dd-modal",
            ComponentKind::Slider => "dd-slider",
            ComponentKind::Alert => "dd-alert",
            ComponentKind::Image => "dd-image",
            ComponentKind::RichText => "dd-rich_text",
            ComponentKind::Navigation => "dd-navigation",
            ComponentKind::HeaderSearch => "dd-header-search",
            ComponentKind::HeaderMenu => "dd-header-menu",
        }
    }
}

/// The kind of a placed component.
pub open spec fn kind_of(c: SectionComponent) -> ComponentKind {
    match c {
        SectionComponent::Cta(_) => ComponentKind::Cta,
        SectionComponent::Filmstrip(_) => ComponentKind::Filmstrip,
        SectionComponent::Milestones(_) => ComponentKind::Milestones,
        SectionComponent::Slider(_) => ComponentKind::Slider,
        SectionComponent::Modal(_) => ComponentKind::Modal,
        SectionComponent::Banner(_) => ComponentKind::Banner,
        SectionComponent::Card(_) => ComponentKind::Card,
        SectionComponent::Blockquote(_) => ComponentKind::Blockquote,
        SectionComponent::Accordion(_) => ComponentKind::Accordion,
        SectionComponent::Alternating(_) => ComponentKind::Alternating,
        SectionComponent::Alert(_) => ComponentKind::Alert,
        SectionComponent::Image(_) => ComponentKind::Image,
        SectionComponent::RichText(_) => ComponentKind::RichText,
        SectionComponent::Navigation(_) => ComponentKind::Navigation,
        SectionComponent::HeaderSearch(_) => ComponentKind::HeaderSearch,
        SectionComponent::HeaderMenu(_) => ComponentKind::HeaderMenu,
    }
}

/// Label of a placed component: the label of its kind.
pub fn component_label(component: &SectionComponent) -> (r: &'static str)
    ensures
        r@ == kind_label(kind_of(*component)),
{
    match component {
        SectionComponent::Cta(_) => "dd-cta",
        SectionComponent::Filmstrip(_) => "dd-filmstrip",
        SectionComponent::Milestones(_) => "dd-milestones",
        SectionComponent::Slider(_) => "dd-slider",
        SectionComponent::Modal(_) => "dd-modal",
        SectionComponent::Banner(_) => "dd-banner",
        SectionComponent::Card(_) => "dd-card",
        SectionComponent::Blockquote(_) => "dd-blockquote",
        SectionComponent::Accordion(_) => "dd-accordion",
        SectionComponent::Alternating(_) => "dd-alternating",
        SectionComponent::Alert(_) => "dd-alert",
        SectionComponent::Image(_) => "dd-image",
        SectionComponent::RichText(_) => "dd-rich_text",
        SectionComponent::Navigation(_) => "dd-navigation",
        SectionComponent::HeaderSearch(_) => "dd-header-search",
        SectionComponent::HeaderMenu(_) => "dd-header-menu",
    }
}

/// The title of the first item of a list, or `(none)` when it is empty.
pub open spec fn first_title(titles: Seq<Seq<char>>) -> Seq<char> {
    if titles.len() > 0 { titles[0] } else { "(none)"@ }
}

/// The one-line blueprint description of a component: its label with the
/// field that identifies it (the parent title, the first item's title, or
/// the quoted person), or the bare label for the other kinds.
pub open spec fn blueprint_label(c: SectionComponent) -> Seq<char> {
    match c {
        SectionComponent::Cta(v) => "dd-cta | parent_title: "@ + v.parent_title@,
        SectionComponent::Filmstrip(v) => "dd-filmstrip | child_title: "@ + first_title(v.items@.map_values(|i: FilmstripItem| i.child_title@)),
        SectionComponent::Milestones(v) => "dd-milestones | child_title: "@ + first_title(v.items@.map_values(|i: MilestonesItem| i.child_title@)),
        SectionComponent::Slider(v) => "dd-slider | child_title: "@ + first_title(v.items@.map_values(|i: SliderItem| i.child_title@)),
        SectionComponent::Modal(v) => "dd-modal | parent_title: "@ + v.parent_title@,
        SectionComponent::Accordion(v) => "dd-accordion | accordion_title: "@ + first_title(v.items@.map_values(|i: AccordionItem| i.child_title@)),
        SectionComponent::Alternating(v) => "dd-alternating | alternating_title: "@ + first_title(v.items@.map_values(|i: AlternatingItem| i.child_title@)),
        SectionComponent::Card(v) => "dd-card | child_title: "@ + first_title(v.items@.map_values(|i: CardItem| i.child_title@)),
        SectionComponent::Blockquote(v) => "dd-blockquote | parent_name: "@ + v.parent_name@ + " | parent_role: "@ + v.parent_role@,
        _ => kind_label(kind_of(c)),
    }
}

fn push_first_title(out: &mut String, first: Option<&String>)
    ensures
        final(out)@ == old(out)@ + match first { Some(t) => t@, None => "(none)"@ },
{
    match first {
        Some(t) => push_str(out, t.as_str()),
        None => push_str(out, "(none)"),
    }
}

/// The blueprint description of a component (see `blueprint_label`).
pub fn component_blueprint_label(component: &SectionComponent) -> (r: String)
    ensures
        r@ == blueprint_label(*component),
{
    let mut out = String::new();
    match component {
        SectionComponent::Cta(v) => {
            push_str(&mut out, "dd-cta | parent_title: ");
            push_str(&mut out, v.parent_title.as_str());
        },
        SectionComponent::Filmstrip(v) => {
            push_str(&mut out, "dd-filmstrip | child_title: ");
            let first = if v.items.len() > 0 { Some(&v.items[0].child_title) } else { None };
            push_first_title(&mut out, first);
        },
        SectionComponent::Milestones(v) => {
            push_str(&mut out, "dd-milestones | child_title: ");
            let first = if v.items.len() > 0 { Some(&v.items[0].child_title) } else { None };
            push_first_title(&mut out, first);
        },
        SectionComponent::Slider(v) => {
            push_str(&mut out, "dd-slider | child_title: ");
            let first = if v.items.len() > 0 { Some(&v.items[0].child_title) } else { None };
            push_first_title(&mut out, first);
        },
        SectionComponent::Modal(v) => {
            push_str(&mut out, "dd-modal | parent_title: ");
            push_str(&mut out, v.parent_title.as_str());
        },
        SectionComponent::Accordion(v) => {
            push_str(&mut out, "dd-accordion | accordion_title: ");
            let first = if v.items.len() > 0 { Some(&v.items[0].child_title) } else { None };
            push_first_title(&mut out, first);
        },
        SectionComponent::Alternating(v) => {
            push_str(&mut out, "dd-alternating | alternating_title: ");
            let first = if v.items.len() > 0 { Some(&v.items[0].child_title) } else { None };
            push_first_title(&mut out, first);
        },
        SectionComponent::Card(v) => {
            push_str(&mut out, "dd-card | child_title: ");
            let first = if v.items.len() > 0 { Some(&v.items[0].child_title) } else { None };
            push_first_title(&mut out, first);
        },
        SectionComponent::Blockquote(v) => {
            push_str(&mut out, "dd-blockquote | parent_name: ");
            push_str(&mut out, v.parent_name.as_str());
            push_str(&mut out, " | parent_role: ");
            push_str(&mut out, v.parent_role.as_str());
        },
        _ => {
            push_str(&mut out, component_label(component));
        },
    }
    out
}


/// An optional string holding `s`.
pub open spec fn opt_is(o: Option<String>, s: Seq<char>) -> bool {
    o is Some && o->0@ == s
}

/// `c` is the component that a new block of kind `k` starts out as.
pub open spec fn is_default_component(k: ComponentKind, c: SectionComponent) -> bool {
    match c {
        SectionComponent::Cta(v) => k == ComponentKind::Cta
            && v.parent_class == CtaClass::TopLeft
            && v.parent_image_url@ == "https://dummyimage.com/1920x1080/000000/fff"@
            && v.parent_image_alt@ == "Image alt"@
            && v.parent_data_aos == HeroAos::FadeIn
            && v.parent_title@ == "Title"@
            && v.parent_subtitle@ == "Subtitle"@
            && v.parent_copy@ == "Copy"@
            && opt_is(v.parent_link_url, "/path"@)
            && v.parent_link_target == Some(CardLinkTarget::SelfTarget)
            && opt_is(v.parent_link_label, "Learn More"@),
        SectionComponent::Banner(v) => k == ComponentKind::Banner
            && v.parent_class == BannerClass::BgCenterCenter
            && v.parent_data_aos == HeroAos::FadeIn
            && v.parent_image_url@ == "https://dummyimage.com/1920x1080/000/fff"@
            && v.parent_image_alt@ == "Banner alt text"@,
        SectionComponent::Blockquote(v) => k == ComponentKind::Blockquote
            && v.parent_data_aos == HeroAos::FadeIn
            && v.parent_image_url@ == "https://dummyimage.com/512x512/000/fff"@
            && v.parent_image_alt@ == "blockquote Persons Name"@
            && v.parent_name@ == "blockquote Persons Name"@
            && v.parent_role@ == "blockquote Persons Title"@
            && v.parent_copy@ == "blockquote content"@,
        SectionComponent::Accordion(v) => k == ComponentKind::Accordion
            && v.parent_type == AccordionType::Default
            && v.parent_class == AccordionClass::Primary
            && v.parent_data_aos == HeroAos::FadeIn
            && v.parent_group_name@ == "group1"@
            && v.items@.len() == 1
            && v.items@[0].child_title@ == "Accordion Item"@
            && v.items@[0].child_copy@ == "Accordion content"@
            && v.multiple == Some(false),
        SectionComponent::Alternating(v) => k == ComponentKind::Alternating
            && v.parent_type == AlternatingType::Default
            && v.parent_class@ == "-default"@
            && v.parent_data_aos == HeroAos::FadeIn
            && v.items@.len() == 1
            && v.items@[0].child_image_url@ == "https://dummyimage.com/600x400/000/fff"@
            && v.items@[0].child_image_alt@ == "Alternating image"@
            && v.items@[0].child_title@ == "Alternating Item"@
            && v.items@[0].child_copy@ == "Alternating content"@,
        SectionComponent::Card(v) => k == ComponentKind::Card
            && v.parent_type == CardType::Default
            && v.parent_data_aos == HeroAos::FadeIn
            && v.parent_width@ == "dd-u-1-1 dd-u-md-12-24 dd-u-lg-8-24"@
            && v.items@.len() == 1
            && v.items@[0].child_image_url@ == "https://dummyimage.com/720x720/000/fff"@
            && v.items@[0].child_image_alt@ == "Image alt text"@
            && v.items@[0].child_title@ == "Title"@
            && v.items@[0].child_subtitle@ == "Subtitle"@
            && v.items@[0].child_copy@ == "Copy"@
            && opt_is(v.items@[0].child_link_url, "/front"@)
            && v.items@[0].child_link_target == Some(CardLinkTarget::SelfTarget)
            && opt_is(v.items@[0].child_link_label, "Learn More"@),
        SectionComponent::Filmstrip(v) => k == ComponentKind::Filmstrip
            && v.parent_type == FilmstripType::Default
            && v.parent_data_aos == HeroAos::FadeIn
            && v.items@.len() == 1
            && v.items@[0].child_image_url@ == "https://dummyimage.com/256x256/000/fff"@
            && v.items@[0].child_image_alt@ == "Image alt text"@
            && v.items@[0].child_title@ == "Title"@,
        SectionComponent::Milestones(v) => k == ComponentKind::Milestones
            && v.parent_data_aos == HeroAos::FadeIn
            && v.parent_width@ == "dd-u-1-1 dd-u-md-12-24"@
            && v.items@.len() == 1
            && v.items@[0].child_percentage@ == "70"@
            && v.items@[0].child_title@ == "Title"@
            && v.items@[0].child_subtitle@ == "Subtitle"@
            && v.items@[0].child_copy@ == "Copy"@
            && v.items@[0].child_link_url is None
            && v.items@[0].child_link_target == Some(CardLinkTarget::SelfTarget)
            && v.items@[0].child_link_label is None,
        SectionComponent::Modal(v) => k == ComponentKind::Modal
            && v.parent_title@ == "Title"@
            && v.parent_copy@ == "Copy"@,
        SectionComponent::Slider(v) => k == ComponentKind::Slider
            && v.parent_title@ == Seq::<char>::empty()
            && v.items@.len() == 1
            && v.items@[0].child_title@ == "Title"@
            && v.items@[0].child_copy@ == "Copy"@
            && opt_is(v.items@[0].child_link_url, "/path"@)
            && v.items@[0].child_link_target == Some(CardLinkTarget::SelfTarget)
            && opt_is(v.items@[0].child_link_label, "Learn More"@)
            && v.items@[0].child_image_url@ == "https://dummyimage.com/720x720/000/fff"@
            && v.items@[0].child_image_alt@ == "Image alt text"@,
        SectionComponent::Alert(v) => k == ComponentKind::Alert
            && v.parent_type == AlertType::Default
            && v.parent_class == AlertClass::Default
            && v.parent_data_aos == HeroAos::FadeIn
            && opt_is(v.parent_title, "Alert Title"@)
            && v.parent_copy@ == "Alert content"@,
        SectionComponent::Image(v) => k == ComponentKind::Image
            && v.parent_data_aos == HeroAos::FadeIn
            && v.parent_image_url@ == "https://dummyimage.com/1200x600/000/fff"@
            && v.parent_image_alt@ == "Image alt text"@
            && v.parent_link_url is None
            && v.parent_link_target is None,
        SectionComponent::RichText(v) => k == ComponentKind::RichText
            && v.parent_class is None
            && v.parent_data_aos == HeroAos::FadeIn
            && v.parent_copy@ == "Copy"@,
        SectionComponent::Navigation(v) => k == ComponentKind::Navigation
            && v.parent_type == NavigationType::HeaderNav
            && v.parent_class == NavigationClass::MainMenu
            && v.parent_data_aos == HeroAos::FadeIn
            && v.parent_width@ == "dd-u-1-1 dd-u-sm-1-1 dd-u-md-1-1 dd-u-lg-18-24"@
            && v.items@.len() == 1
            && v.items@[0].child_kind == NavigationKind::Link
            && v.items@[0].child_link_label@ == "Home"@
            && opt_is(v.items@[0].child_link_url, "/"@)
            && v.items@[0].child_link_target == Some(CardLinkTarget::SelfTarget)
            && v.items@[0].child_link_css is None
            && v.items@[0].items@.len() == 0,
        SectionComponent::HeaderSearch(v) => k == ComponentKind::HeaderSearch
            && v.parent_width@ == "dd-u-3-24 dd-u-sm-3-24 dd-u-md-3-24 dd-u-lg-4-24"@
            && v.parent_data_aos == HeroAos::FadeIn,
        SectionComponent::HeaderMenu(v) => k == ComponentKind::HeaderMenu
            && v.parent_width@ == "dd-u-3-24 dd-u-sm-3-24 dd-u-md-3-24"@
            && v.parent_data_aos == HeroAos::FadeIn,
    }
}

fn s(lit: &str) -> (r: String)
    ensures
        r@ == lit@,
{
    lit.to_string()
}

impl ComponentKind {
    /// The component a new block of this kind starts out as (see
    /// `is_default_component`); hero and section are page nodes, not
    /// components, and have none.
    pub fn default_component(self) -> (r: SectionComponent)
        requires
            self != ComponentKind::Hero,
            self != ComponentKind::Section,
        ensures
            is_default_component(self, r),
    {
        match self {
            ComponentKind::Hero | ComponentKind::Section => {
                proof { assert(false); }
                SectionComponent::Modal(DdModal { parent_title: String::new(), parent_copy: String::new() })
            },
            ComponentKind::Cta => SectionComponent::Cta(DdCta {
                parent_class: CtaClass::TopLeft,
                parent_image_url: s("https://dummyimage.com/1920x1080/000000/fff"),
                parent_image_alt: s("Image alt"),
                parent_data_aos: HeroAos::FadeIn,
                parent_title: s("Title"),
                parent_subtitle: s("Subtitle"),
                parent_copy: s("Copy"),
                parent_link_url: Some(s("/path")),
                parent_link_target: Some(CardLinkTarget::SelfTarget),
                parent_link_label: Some(s("Learn More")),
            }),
            ComponentKind::Banner => SectionComponent::Banner(DdBanner {
                parent_class: BannerClass::BgCenterCenter,
                parent_data_aos: HeroAos::FadeIn,
                parent_image_url: s("https://dummyimage.com/1920x1080/000/fff"),
                parent_image_alt: s("Banner alt text"),
            }),
            ComponentKind::Blockquote => SectionComponent::Blockquote(DdBlockquote {
                parent_data_aos: HeroAos::FadeIn,
                parent_image_url: s("https://dummyimage.com/512x512/000/fff"),
                parent_image_alt: s("blockquote Persons Name"),
                parent_name: s("blockquote Persons Name"),
                parent_role: s("blockquote Persons Title"),
                parent_copy: s("blockquote content"),
            }),
            ComponentKind::Accordion => SectionComponent::Accordion(DdAccordion {
                parent_type: AccordionType::Default,
                parent_class: AccordionClass::Primary,
                parent_data_aos: HeroAos::FadeIn,
                parent_group_name: s("group1"),
                items: vec![AccordionItem { child_title: s("Accordion Item"), child_copy: s("Accordion content") }],
                multiple: Some(false),
            }),
            ComponentKind::Alternating => SectionComponent::Alternating(DdAlternating {
                parent_type: AlternatingType::Default,
                parent_class: s("-default"),
                parent_data_aos: HeroAos::FadeIn,
                items: vec![AlternatingItem {
                    child_image_url: s("https://dummyimage.com/600x400/000/fff"),
                    child_image_alt: s("Alternating image"),
                    child_title: s("Alternating Item"),
                    child_copy: s("Alternating content"),
                }],
            }),
            ComponentKind::Card => SectionComponent::Card(DdCard {
                parent_type: CardType::Default,
                parent_data_aos: HeroAos::FadeIn,
                parent_width: s("dd-u-1-1 dd-u-md-12-24 dd-u-lg-8-24"),
                items: vec![CardItem {
                    child_image_url: s("https://dummyimage.com/720x720/000/fff"),
                    child_image_alt: s("Image alt text"),
                    child_title: s("Title"),
                    child_subtitle: s("Subtitle"),
                    child_copy: s("Copy"),
                    child_link_url: Some(s("/front")),
                    child_link_target: Some(CardLinkTarget::SelfTarget),
                    child_link_label: Some(s("Learn More")),
                }],
            }),
            ComponentKind::Filmstrip => SectionComponent::Filmstrip(DdFilmstrip {
                parent_type: FilmstripType::Default,
                parent_data_aos: HeroAos::FadeIn,
                items: vec![FilmstripItem {
                    child_image_url: s("https://dummyimage.com/256x256/000/fff"),
                    child_image_alt: s("Image alt text"),
                    child_title: s("Title"),
                }],
            }),
            ComponentKind::Milestones => SectionComponent::Milestones(DdMilestones {
                parent_data_aos: HeroAos::FadeIn,
                parent_width: s("dd-u-1-1 dd-u-md-12-24"),
                items: vec![MilestonesItem {
                    child_percentage: s("70"),
                    child_title: s("Title"),
                    child_subtitle: s("Subtitle"),
                    child_copy: s("Copy"),
                    child_link_url: None,
                    child_link_target: Some(CardLinkTarget::SelfTarget),
                    child_link_label: None,
                }],
            }),
            ComponentKind::Modal => SectionComponent::Modal(DdModal { parent_title: s("Title"), parent_copy: s("Copy") }),
            ComponentKind::Slider => SectionComponent::Slider(DdSlider {
                parent_title: String::new(),
                items: vec![SliderItem {
                    child_title: s("Title"),
                    child_copy: s("Copy"),
                    child_link_url: Some(s("/path")),
                    child_link_target: Some(CardLinkTarget::SelfTarget),
                    child_link_label: Some(s("Learn More")),
                    child_image_url: s("https://dummyimage.com/720x720/000/fff"),
                    child_image_alt: s("Image alt text"),
                }],
            }),
            ComponentKind::Alert => SectionComponent::Alert(DdAlert {
                parent_type: AlertType::Default,
                parent_class: AlertClass::Default,
                parent_data_aos: HeroAos::FadeIn,
                parent_title: Some(s("Alert Title")),
                parent_copy: s("Alert content"),
            }),
            ComponentKind::Image => SectionComponent::Image(DdImage {
                parent_data_aos: HeroAos::FadeIn,
                parent_image_url: s("https://dummyimage.com/1200x600/000/fff"),
                parent_image_alt: s("Image alt text"),
                parent_link_url: None,
                parent_link_target: None,
            }),
            ComponentKind::RichText => SectionComponent::RichText(DdRichText {
                parent_class: None,
                parent_data_aos: HeroAos::FadeIn,
                parent_copy: s("Copy"),
            }),
            ComponentKind::Navigation => SectionComponent::Navigation(DdNavigation {
                parent_type: NavigationType::HeaderNav,
                parent_class: NavigationClass::MainMenu,
                parent_data_aos: HeroAos::FadeIn,
                parent_width: s("dd-u-1-1 dd-u-sm-1-1 dd-u-md-1-1 dd-u-lg-18-24"),
                items: vec![NavigationItem {
                    child_kind: NavigationKind::Link,
                    child_link_label: s("Home"),
                    child_link_url: Some(s("/")),
                    child_link_target: Some(CardLinkTarget::SelfTarget),
                    child_link_css: None,
                    items: Vec::new(),
                }],
            }),
            ComponentKind::HeaderSearch => SectionComponent::HeaderSearch(DdHeaderSearch {
                parent_width: s("dd-u-3-24 dd-u-sm-3-24 dd-u-md-3-24 dd-u-lg-4-24"),
                parent_data_aos: HeroAos::FadeIn,
            }),
            ComponentKind::HeaderMenu => SectionComponent::HeaderMenu(DdHeaderMenu {
                parent_width: s("dd-u-3-24 dd-u-sm-3-24 dd-u-md-3-24"),
                parent_data_aos: HeroAos::FadeIn,
            }),
        }
    }
}

} // verus!
