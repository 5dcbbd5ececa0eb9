//! The figures the project dashboard shows.

use vstd::prelude::*;

verus! {

/// Counts over the project's posts, media and taxonomy.
#[derive(Debug, Clone)]
pub struct DashboardStats {
    pub total_posts: usize,
    pub published_count: usize,
    pub draft_count: usize,
    pub archived_count: usize,
    pub media_count: usize,
    pub image_count: usize,
    pub total_media_size: String,
    pub tag_count: usize,
    pub category_count: usize,
}

/// Posts written in one month of the timeline.
#[derive(Debug, Clone)]
pub struct DashboardTimelineMonth {
    pub label: String,
    pub year: i32,
    pub count: usize,
}

/// A category with its number of posts.
#[derive(Debug, Clone)]
pub struct DashboardCategory {
    pub name: String,
    pub count: usize,
}

/// A recently edited post.
#[derive(Debug, Clone)]
pub struct DashboardRecentPost {
    pub post_id: String,
    pub title: String,
    pub status: String,
    pub date: String,
}

} // verus!
