//! What a project looks like as a card: the values that a view layer needs to
//! draw it, worked out from the project alone.

use crate::models::{Project, ProjectView};
use crate::technology::{icon_for, tech_str_to_icon, Icon};
use crate::text::{
    capitalize_str, capitalized, decimal, decimal_string, split, split_on, texts_of, trim, trimmed,
};
use vstd::prelude::*;
use vstd::string::StringExecFns;

verus! {

/// The heading of a card.
#[derive(Clone, Debug, PartialEq, Eq)]
pub enum Title {
    /// The project's name as a link to `href`; `new_context` says that the
    /// link opens outside the page.
    Link { href: String, text: String, new_context: bool },
    /// The project's name as plain text.
    Plain { text: String },
}

/// What a `Title` holds, with its texts as sequences of characters.
pub enum TitleView {
    Link { href: Seq<char>, text: Seq<char>, new_context: bool },
    Plain { text: Seq<char> },
}

impl View for Title {
    type V = TitleView;

    open spec fn view(&self) -> TitleView {
        match self {
            Title::Link { href, text, new_context } => TitleView::Link {
                href: href@,
                text: text@,
                new_context: *new_context,
            },
            Title::Plain { text } => TitleView::Plain { text: text@ },
        }
    }
}

/// One technology in the row of icons on a card.
#[derive(Clone, Debug, PartialEq, Eq)]
pub struct TechBadge {
    pub icon: Icon,
    /// The technology's name, capitalized; shown on hover.
    pub title: String,
}

/// What a `TechBadge` holds, with its title as a sequence of characters.
pub struct TechBadgeView {
    pub icon: Icon,
    pub title: Seq<char>,
}

impl View for TechBadge {
    type V = TechBadgeView;

    open spec fn view(&self) -> TechBadgeView {
        TechBadgeView { icon: self.icon, title: self.title@ }
    }
}

/// A project as a card.
#[derive(Clone, Debug, PartialEq, Eq)]
pub struct Card {
    /// The project's id, by which the card is told apart from its neighbours.
    pub id: i32,
    /// Where the project's picture is served.
    pub image: String,
    pub title: Title,
    pub description: String,
    /// The row of technology icons; `None` where the card has no such row.
    pub tech_stack: Option<Vec<TechBadge>>,
}

/// What a `Card` holds, with its texts as sequences of characters.
pub struct CardView {
    pub id: i32,
    pub image: Seq<char>,
    pub title: TitleView,
    pub description: Seq<char>,
    pub tech_stack: Option<Seq<TechBadgeView>>,
}

/// The views of a row of badges.
pub open spec fn badge_views(badges: Seq<TechBadge>) -> Seq<TechBadgeView> {
    badges.map_values(|b: TechBadge| b@)
}

impl View for Card {
    type V = CardView;

    open spec fn view(&self) -> CardView {
        CardView {
            id: self.id,
            image: self.image@,
            title: self.title@,
            description: self.description@,
            tech_stack: match self.tech_stack {
                Some(badges) => Some(badge_views(badges@)),
                None => None,
            },
        }
    }
}

/// Where the picture of project `id` is served.
pub open spec fn image_path(id: int) -> Seq<char> {
    "/images/projects/"@ + decimal(id) + ".png"@
}

/// The heading of a project's card: a link where the project has an address,
/// plain text where it has none.
pub open spec fn title_of(project: ProjectView) -> TitleView {
    match project.url {
        Some(url) => TitleView::Link { href: url, text: project.name, new_context: true },
        None => TitleView::Plain { text: project.name },
    }
}

/// The badge of one piece of a technology list: the piece without the white
/// space round it names the technology; a name without an icon gives no badge.
pub open spec fn badge_of(piece: Seq<char>) -> Option<TechBadgeView> {
    match icon_for(trimmed(piece)) {
        Some(icon) => Some(TechBadgeView { icon, title: capitalized(trimmed(piece)) }),
        None => None,
    }
}

/// The badges of a comma-separated list of technologies, in the order of the
/// list.
pub open spec fn tech_badges(technologies: Seq<char>) -> Seq<TechBadgeView> {
    split(technologies, ',').filter_map(|piece: Seq<char>| badge_of(piece))
}

/// The card of a project in the full catalogue.
pub open spec fn project_card(project: ProjectView) -> CardView {
    CardView {
        id: project.id,
        image: image_path(project.id as int),
        title: title_of(project),
        description: project.long_description,
        tech_stack: match project.technologies {
            Some(technologies) => Some(tech_badges(technologies)),
            None => None,
        },
    }
}

/// The card of a project among the pinned ones: the short description, and no
/// row of technologies.
pub open spec fn pinned_project_card(project: ProjectView) -> CardView {
    CardView {
        id: project.id,
        image: image_path(project.id as int),
        title: title_of(project),
        description: project.short_description,
        tech_stack: None,
    }
}

/// Where the picture of project `id` is served.
pub fn image_path_of(id: i32) -> (path: String)
    ensures
        path@ == image_path(id as int),
{
    let mut path = String::from_str("/images/projects/");
    let number = decimal_string(id);
    path.append(number.as_str());
    path.append(".png");
    path
}

/// The heading of a project's card.
pub fn title_for(project: &Project) -> (title: Title)
    ensures
        title@ == title_of(project@),
{
    match &project.url {
        Some(url) => Title::Link { href: url.clone(), text: project.name.clone(), new_context: true },
        None => Title::Plain { text: project.name.clone() },
    }
}

/// The badges of a comma-separated list of technologies. Each piece is
/// trimmed; a piece that names no known technology is left out.
pub fn tech_badges_of(technologies: &str) -> (badges: Vec<TechBadge>)
    ensures
        badge_views(badges@) == tech_badges(technologies@),
{
    let pieces = split_on(technologies, ',');
    let ghost texts = split(technologies@, ',');
    let ghost f = |piece: Seq<char>| badge_of(piece);
    let mut badges: Vec<TechBadge> = Vec::new();
    let mut i: usize = 0;
    assert(texts.take(0).filter_map(f) == Seq::<TechBadgeView>::empty());
    assert(badge_views(badges@) == Seq::<TechBadgeView>::empty());
    while i < pieces.len()
        invariant
            i <= pieces.len(),
            texts_of(pieces@) == texts,
            f == |piece: Seq<char>| badge_of(piece),
            badge_views(badges@) == texts.take(i as int).filter_map(f),
        decreases pieces.len() - i,
    {
        assert(texts[i as int] == pieces@[i as int]@);
        let name = trim(pieces[i].as_str());
        proof {
            texts.lemma_filter_map_take_succ(f, i as int);
        }
        match tech_str_to_icon(name.as_str()) {
            Some(icon) => {
                let badge = TechBadge { icon, title: capitalize_str(name.as_str()) };
                let ghost before = badges@;
                badges.push(badge);
                assert(badge_views(badges@) == badge_views(before).push(badge@));
            },
            None => {},
        }
        i += 1;
    }
    assert(texts.take(i as int) == texts);
    badges
}

/// The card of a project in the full catalogue: picture, heading, the long
/// description, and the row of technology icons where the project lists
/// technologies.
#[allow(non_snake_case)]
pub fn ProjectCard(project: &Project) -> (card: Card)
    ensures
        card@ == project_card(project@),
{
    let tech_stack = match &project.technologies {
        Some(technologies) => Some(tech_badges_of(technologies.as_str())),
        None => None,
    };
    Card {
        id: project.id,
        image: image_path_of(project.id),
        title: title_for(project),
        description: project.long_description.clone(),
        tech_stack,
    }
}

/// The card of a project among the pinned ones: picture, heading and the
/// short description.
#[allow(non_snake_case)]
pub fn PinnedProjectCard(project: &Project) -> (card: Card)
    ensures
        card@ == pinned_project_card(project@),
{
    Card {
        id: project.id,
        image: image_path_of(project.id),
        title: title_for(project),
        description: project.short_description.clone(),
        tech_stack: None,
    }
}

} // verus!
