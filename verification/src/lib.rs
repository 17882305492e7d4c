//! Decision logic of the organization and portfolio pages: labels, parsing of
//! form values, ordering of lists, and the small state machines that the pages
//! drive (document tabs, expansion sets, click handling, zoom, pagination).

pub mod text;
pub mod roles;
pub mod numbers;
pub mod ordering;
pub mod doc_tabs;
pub mod documents;
pub mod lists;
pub mod notifications;
pub mod dates;
pub mod bookings;
pub mod ids;
pub mod portfolio_page;
pub mod permissions;
pub mod organizations;
pub mod org_overview;
pub mod org_view_state;
pub mod assets;
pub mod paging;
pub mod viewer;
pub mod asset_forms;
pub mod doc_previews;
pub mod notif_feed;
pub mod editor;
pub mod relationships;
pub mod asset_store;
pub mod doc_store;
