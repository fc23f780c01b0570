//! Request and response shapes of the service, with the field rules that
//! requests must keep.
use vstd::prelude::*;
use crate::signal::PreferenceSignal;

verus! {

/// A field of a request breaks its rule.
#[derive(Debug, Clone, Copy, PartialEq, Eq)]
pub enum FieldError {
    /// The named field is out of its range or too long or too short.
    OutOfRange(&'static str),
}

/// A star rating, with an optional comment.
#[derive(Debug, Clone)]
pub struct RateRecipeRequest {
    pub rating: i16,
    pub comment: Option<String>,
}

/// The reply to a rating or a cooking record.
#[derive(Debug, Clone)]
pub struct InteractionResponse {
    pub message: String,
}

/// Whether a recipe is now a favourite.
#[derive(Debug, Clone, Copy, PartialEq, Eq)]
pub struct FavouriteResponse {
    pub recipe_id: i64,
    pub is_favourited: bool,
}

/// One entry of the cooking history.
#[derive(Debug, Clone)]
pub struct CookingHistoryItem {
    pub id: i64,
    pub recipe_id: i64,
    pub recipe_name: String,
    pub servings_made: i32,
    pub inventory_deducted: bool,
    pub cooked_at: String,
}

/// One slot of a meal plan as shown to the user.
#[derive(Debug, Clone)]
pub struct MealPlanSlotResponse {
    pub id: i64,
    pub day_of_week: i16,
    pub meal_type: String,
    pub recipe_id: i64,
    pub recipe_name: String,
    pub recipe_image_url: Option<String>,
    pub total_time_min: Option<i32>,
    pub servings: i32,
    pub is_completed: bool,
}

/// A change to the user's profile.
#[derive(Debug, Clone)]
pub struct UpdateProfileRequest {
    pub name: Option<String>,
    pub household_size: Option<i32>,
    pub dietary_restrictions: Option<Vec<String>>,
    pub allergies: Option<Vec<String>>,
    pub avatar_url: Option<String>,
}

/// The user's profile.
#[derive(Debug, Clone)]
pub struct ProfileResponse {
    pub id: String,
    pub email: String,
    pub name: Option<String>,
    pub household_size: i32,
    pub dietary_restrictions: Option<Vec<String>>,
    pub allergies: Option<Vec<String>>,
    pub avatar_url: Option<String>,
    pub is_email_verified: bool,
    pub two_factor_enabled: bool,
    pub created_at: String,
}

/// Filters and paging of a recipe listing.
#[derive(Debug, Clone)]
pub struct RecipeQuery {
    pub q: Option<String>,
    pub cuisine: Option<String>,
    pub category: Option<String>,
    pub difficulty: Option<String>,
    pub vegetarian: Option<bool>,
    pub vegan: Option<bool>,
    pub gluten_free: Option<bool>,
    pub dairy_free: Option<bool>,
    pub max_time: Option<i32>,
    pub page: Option<u64>,
    pub per_page: Option<u64>,
}

/// Search and paging of an ingredient listing.
#[derive(Debug, Clone)]
pub struct IngredientQuery {
    pub q: Option<String>,
    pub category: Option<String>,
    pub page: Option<u64>,
    pub per_page: Option<u64>,
}

/// An ingredient in a listing.
#[derive(Debug, Clone)]
pub struct IngredientListItem {
    pub id: i64,
    pub name: String,
    pub category: Option<String>,
}

/// One step of a recipe.
#[derive(Debug, Clone)]
pub struct RecipeStepDetail {
    pub id: i64,
    pub step_number: i32,
    pub instruction: String,
    pub duration_min: Option<i32>,
    pub image_url: Option<String>,
    pub tip: Option<String>,
}

/// One image of a recipe.
#[derive(Debug, Clone)]
pub struct RecipeImageDetail {
    pub id: i64,
    pub url: String,
    pub image_type: Option<String>,
    pub is_primary: bool,
    pub width: Option<i32>,
    pub height: Option<i32>,
}

/// One page of a listing.
#[derive(Debug, Clone)]
pub struct PaginatedResponse<T> {
    pub data: Vec<T>,
    pub total: u64,
    pub page: u64,
    pub per_page: u64,
    pub total_pages: u64,
}

/// A request to scale a recipe to a number of servings.
#[derive(Debug, Clone, Copy, PartialEq, Eq)]
pub struct ScaleRequest {
    pub servings: i32,
}

/// One message of a conversation with the assistant model.
#[derive(Debug, Clone)]
pub struct OllamaMessage {
    pub role: String,
    pub content: String,
}

/// A message to the assistant, in a new or an existing session.
#[derive(Debug, Clone)]
pub struct ChatRequest {
    pub message: String,
    pub session_id: Option<i64>,
    pub recipe_id: Option<i64>,
}

/// The assistant's reply.
#[derive(Debug, Clone)]
pub struct ChatResponse {
    pub session_id: i64,
    pub message_id: i64,
    pub reply: String,
    pub tokens_used: Option<i32>,
}

/// A chat session in a listing.
#[derive(Debug, Clone)]
pub struct SessionListItem {
    pub id: i64,
    pub title: Option<String>,
    pub created_at: String,
    pub updated_at: String,
}

/// A stored chat message.
#[derive(Debug, Clone)]
pub struct MessageItem {
    pub id: i64,
    pub role: String,
    pub content: String,
    pub created_at: String,
}

/// An optional text has at most `max` characters (an absent one passes).
pub open spec fn opt_len_at_most(s: Option<String>, max: int) -> bool {
    match s {
        Some(t) => t@.len() <= max,
        None => true,
    }
}

fn opt_chars_at_most(s: &Option<String>, max: usize) -> (r: bool)
    ensures
        r == opt_len_at_most(*s, max as int),
{
    match s {
        Some(t) => t.as_str().unicode_len() <= max,
        None => true,
    }
}

impl RateRecipeRequest {
    /// A rating of 1 to 5 stars and a comment of at most 1000 characters.
    pub fn validate(&self) -> (r: Result<(), FieldError>)
        ensures
            r.is_ok() == (1 <= self.rating <= 5 && opt_len_at_most(self.comment, 1000)),
    {
        if self.rating < 1 || self.rating > 5 {
            Err(FieldError::OutOfRange("rating"))
        } else if !opt_chars_at_most(&self.comment, 1000) {
            Err(FieldError::OutOfRange("comment"))
        } else {
            Ok(())
        }
    }

    /// The preference signal of this rating.
    pub fn signal(&self) -> (r: PreferenceSignal)
        ensures
            r == PreferenceSignal::Rated(self.rating),
    {
        PreferenceSignal::Rated(self.rating)
    }
}

impl FavouriteResponse {
    /// Toggles a favourite: a favourite is removed with no signal to
    /// learn from; otherwise it is added and the favourite signal is
    /// learned.
    pub fn toggled(recipe_id: i64, was_favourite: bool) -> (r: (FavouriteResponse, Option<
        PreferenceSignal,
    >))
        ensures
            r.0.recipe_id == recipe_id,
            r.0.is_favourited == !was_favourite,
            r.1 == if was_favourite {
                None
            } else {
                Some(PreferenceSignal::Favourited)
            },
    {
        if was_favourite {
            (FavouriteResponse { recipe_id, is_favourited: false }, None)
        } else {
            (FavouriteResponse { recipe_id, is_favourited: true }, Some(PreferenceSignal::Favourited))
        }
    }
}

impl UpdateProfileRequest {
    /// A name of 1 to 100 characters and a household of 1 to 50 people,
    /// where given.
    pub fn validate(&self) -> (r: Result<(), FieldError>)
        ensures
            r.is_ok() == ((match self.name {
                Some(n) => 1 <= n@.len() <= 100,
                None => true,
            }) && (match self.household_size {
                Some(h) => 1 <= h <= 50,
                None => true,
            })),
    {
        match &self.name {
            Some(n) => {
                let len = n.as_str().unicode_len();
                if len < 1 || len > 100 {
                    return Err(FieldError::OutOfRange("name"));
                }
            },
            None => {},
        }
        match self.household_size {
            Some(h) => {
                if h < 1 || h > 50 {
                    return Err(FieldError::OutOfRange("household_size"));
                }
            },
            None => {},
        }
        Ok(())
    }
}

impl ScaleRequest {
    /// From 1 to 100 servings.
    pub fn validate(&self) -> (r: Result<(), FieldError>)
        ensures
            r.is_ok() == (1 <= self.servings <= 100),
    {
        if self.servings < 1 || self.servings > 100 {
            Err(FieldError::OutOfRange("servings"))
        } else {
            Ok(())
        }
    }
}

/// The page to show: the requested one, at least 1, first by default.
pub fn page_number(requested: Option<u64>) -> (r: u64)
    ensures
        r == match requested {
            Some(p) => if p < 1 {
                1
            } else {
                p
            },
            None => 1,
        },
        r >= 1,
{
    match requested {
        Some(p) => if p < 1 {
            1
        } else {
            p
        },
        None => 1,
    }
}

/// The page size: the requested one, 20 by default, at most `max`.
pub fn page_size(requested: Option<u64>, max: u64) -> (r: u64)
    ensures
        r == match requested {
            Some(n) => if n > max {
                max
            } else {
                n
            },
            None => if 20 > max {
                max
            } else {
                20
            },
        },
{
    let n = match requested {
        Some(n) => n,
        None => 20,
    };
    if n > max {
        max
    } else {
        n
    }
}

/// The number of pages that `total` items fill at `per_page` a page
/// (rounded up). With a page size of 0 there are no pages when there are
/// no items, and `u64::MAX` otherwise.
pub fn total_pages(total: u64, per_page: u64) -> (r: u64)
    ensures
        per_page > 0 ==> r == (total + per_page - 1) / (per_page as int),
        per_page == 0 ==> r == if total == 0 {
            0
        } else {
            u64::MAX
        },
{
    if per_page == 0 {
        if total == 0 {
            0
        } else {
            u64::MAX
        }
    } else {
        let q = total / per_page;
        let extra: u64 = if total % per_page != 0 {
            1
        } else {
            0
        };
        proof {
            let p = per_page as int;
            let t = total as int;
            let m = t % p;
            vstd::arithmetic::div_mod::lemma_fundamental_div_mod(t, p);
            vstd::arithmetic::div_mod::lemma_mod_bound(t, p);
            let k = q + extra;
            assert(k * p <= t + p - 1 && t + p - 1 < k * p + p) by (nonlinear_arith)
                requires
                    t == p * q + m,
                    0 <= m < p,
                    extra == (if m != 0 { 1int } else { 0int }),
                    k == q + extra,
            ;
            crate::fixed_point::lemma_div_between(t + p - 1, p, k, k);
            assert(q + extra <= t) by (nonlinear_arith)
                requires
                    t == p * q + m,
                    0 <= m < p,
                    p >= 1,
                    q >= 0,
                    extra == (if m != 0 { 1int } else { 0int }),
            ;
        }
        q + extra
    }
}

impl<T> PaginatedResponse<T> {
    /// A page of `data` out of `total` items.
    pub fn new(data: Vec<T>, total: u64, page: u64, per_page: u64) -> (r: Self)
        ensures
            r.data == data,
            r.total == total,
            r.page == page,
            r.per_page == per_page,
            per_page > 0 ==> r.total_pages == (total + per_page - 1) / (per_page as int),
    {
        let total_pages = total_pages(total, per_page);
        PaginatedResponse { data, total, page, per_page, total_pages }
    }
}

} // verus!
